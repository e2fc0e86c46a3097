//! The preferences page: whether a preference still has its default value,
//! and what resetting a preference to its default saves.
use vstd::prelude::*;
use crate::config::{
    default_browser_settings, default_browser_view, default_theme_settings, default_theme_view,
    BrowserSettings, BrowserSettingsView, ColorMode, ContextMenuItem, KeyboardShortcut,
    QuickToolbarItem, ThemeSettings, ThemeSettingsView,
};
use crate::paths::{expand_home_path, expand_home_spec};
use crate::sorting::is_stable_sort_of;

verus! {

/// A preference that can be reset to its default.
#[derive(Debug, Clone, Copy, PartialEq, Eq, Structural)]
pub enum PreferenceOption {
    ColorMode,
    LightAccent,
    DarkAccent,
    BackgroundOpacity,
    ContextMenuBlurStrength,
    ContextMenuBlurKernelSize,
    FileContextMenuItems,
    FolderContextMenuItems,
    QuickToolbarItems,
    KeyboardShortcuts,
    BorderRadius,
    Layout,
    ItemSize,
    Preview,
    SingleClickFolders,
    IconTheme,
    ThumbnailLocation,
    Terminal,
}

/// Whether a preference has its default value. The default thumbnail
/// location is compared with `~/` resolved against the home folder.
pub open spec fn matches_default_spec(
    option: PreferenceOption,
    color_mode: ColorMode,
    theme: ThemeSettingsView,
    browser: BrowserSettingsView,
    home: Option<Seq<char>>,
) -> bool {
    let t = default_theme_view();
    let b = default_browser_view();
    match option {
        PreferenceOption::ColorMode => color_mode == ColorMode::System,
        PreferenceOption::LightAccent => theme.light_highlight == t.light_highlight,
        PreferenceOption::DarkAccent => theme.dark_highlight == t.dark_highlight,
        PreferenceOption::BackgroundOpacity => theme.background_opacity == t.background_opacity,
        PreferenceOption::ContextMenuBlurStrength => theme.context_menu_blur_strength
            == t.context_menu_blur_strength,
        PreferenceOption::ContextMenuBlurKernelSize => theme.context_menu_blur_kernel_size
            == t.context_menu_blur_kernel_size,
        PreferenceOption::BorderRadius => theme.border_radius == t.border_radius,
        PreferenceOption::Layout => browser.layout == b.layout,
        PreferenceOption::ItemSize => browser.item_size == b.item_size,
        PreferenceOption::Preview => browser.preview_enabled == b.preview_enabled,
        PreferenceOption::SingleClickFolders => browser.single_click_opens_folders
            == b.single_click_opens_folders,
        PreferenceOption::IconTheme => browser.icon_theme == b.icon_theme,
        PreferenceOption::ThumbnailLocation => browser.thumbnail_location == expand_home_spec(
            b.thumbnail_location,
            home,
        ),
        PreferenceOption::Terminal => browser.terminal_command == b.terminal_command,
        PreferenceOption::FileContextMenuItems => browser.file_context_menu_items
            == b.file_context_menu_items,
        PreferenceOption::FolderContextMenuItems => browser.folder_context_menu_items
            == b.folder_context_menu_items,
        PreferenceOption::QuickToolbarItems => browser.quick_toolbar_items == b.quick_toolbar_items,
        PreferenceOption::KeyboardShortcuts => browser.keyboard_shortcuts == b.keyboard_shortcuts,
    }
}

fn menu_items_equal(a: &Vec<ContextMenuItem>, b: &Vec<ContextMenuItem>) -> (res: bool)
    ensures
        res == (a@ == b@),
{
    if a.len() != b.len() {
        return false;
    }
    let mut i: usize = 0;
    while i < a.len()
        invariant
            a@.len() == b@.len(),
            i <= a@.len(),
            forall|k: int| 0 <= k < i ==> a@[k] == b@[k],
        decreases a@.len() - i,
    {
        if a[i] != b[i] {
            return false;
        }
        i = i + 1;
    }
    assert(a@ =~= b@);
    true
}

fn toolbar_items_equal(a: &Vec<QuickToolbarItem>, b: &Vec<QuickToolbarItem>) -> (res: bool)
    ensures
        res == (a@ == b@),
{
    if a.len() != b.len() {
        return false;
    }
    let mut i: usize = 0;
    while i < a.len()
        invariant
            a@.len() == b@.len(),
            i <= a@.len(),
            forall|k: int| 0 <= k < i ==> a@[k] == b@[k],
        decreases a@.len() - i,
    {
        if a[i] != b[i] {
            return false;
        }
        i = i + 1;
    }
    assert(a@ =~= b@);
    true
}

fn shortcuts_equal(a: &Vec<KeyboardShortcut>, b: &Vec<KeyboardShortcut>) -> (res: bool)
    ensures
        res == (a.deep_view() == b.deep_view()),
{
    if a.len() != b.len() {
        assert(a.deep_view().len() != b.deep_view().len());
        return false;
    }
    let mut i: usize = 0;
    while i < a.len()
        invariant
            a@.len() == b@.len(),
            i <= a@.len(),
            forall|k: int| 0 <= k < i ==> a.deep_view()[k] == b.deep_view()[k],
        decreases a@.len() - i,
    {
        let same = a[i].action == b[i].action && crate::text::str_equal(
            a[i].key.as_str(),
            b[i].key.as_str(),
        );
        assert(a.deep_view()[i as int] == a@[i as int].deep_view());
        assert(b.deep_view()[i as int] == b@[i as int].deep_view());
        if !same {
            return false;
        }
        i = i + 1;
    }
    assert(a.deep_view() =~= b.deep_view());
    true
}

/// Whether a preference has its default value.
pub fn preference_matches_default(
    option: PreferenceOption,
    color_mode: ColorMode,
    theme: &ThemeSettings,
    browser: &BrowserSettings,
    home: Option<&str>,
) -> (res: bool)
    ensures
        res == matches_default_spec(
            option,
            color_mode,
            theme.deep_view(),
            browser.deep_view(),
            crate::config::opt_view(home),
        ),
{
    let t = default_theme_settings();
    let b = default_browser_settings();
    match option {
        PreferenceOption::ColorMode => color_mode == ColorMode::System,
        PreferenceOption::LightAccent => crate::text::str_equal(
            theme.light_highlight.as_str(),
            t.light_highlight.as_str(),
        ),
        PreferenceOption::DarkAccent => crate::text::str_equal(
            theme.dark_highlight.as_str(),
            t.dark_highlight.as_str(),
        ),
        PreferenceOption::BackgroundOpacity => theme.background_opacity == t.background_opacity,
        PreferenceOption::ContextMenuBlurStrength => theme.context_menu_blur_strength
            == t.context_menu_blur_strength,
        PreferenceOption::ContextMenuBlurKernelSize => theme.context_menu_blur_kernel_size
            == t.context_menu_blur_kernel_size,
        PreferenceOption::BorderRadius => theme.border_radius == t.border_radius,
        PreferenceOption::Layout => browser.layout == b.layout,
        PreferenceOption::ItemSize => browser.item_size == b.item_size,
        PreferenceOption::Preview => browser.preview_enabled == b.preview_enabled,
        PreferenceOption::SingleClickFolders => browser.single_click_opens_folders
            == b.single_click_opens_folders,
        PreferenceOption::IconTheme => crate::text::str_equal(
            browser.icon_theme.as_str(),
            b.icon_theme.as_str(),
        ),
        PreferenceOption::ThumbnailLocation => {
            let location = expand_home_path(b.thumbnail_location.as_str(), home);
            crate::text::str_equal(browser.thumbnail_location.as_str(), location.as_str())
        },
        PreferenceOption::Terminal => crate::text::str_equal(
            browser.terminal_command.as_str(),
            b.terminal_command.as_str(),
        ),
        PreferenceOption::FileContextMenuItems => menu_items_equal(
            &browser.file_context_menu_items,
            &b.file_context_menu_items,
        ),
        PreferenceOption::FolderContextMenuItems => menu_items_equal(
            &browser.folder_context_menu_items,
            &b.folder_context_menu_items,
        ),
        PreferenceOption::QuickToolbarItems => toolbar_items_equal(
            &browser.quick_toolbar_items,
            &b.quick_toolbar_items,
        ),
        PreferenceOption::KeyboardShortcuts => shortcuts_equal(
            &browser.keyboard_shortcuts,
            &b.keyboard_shortcuts,
        ),
    }
}

/// What resetting a preference saves: the default colour mode, or the
/// active theme or browser settings with that one preference set back.
#[derive(Debug, Clone, PartialEq, Eq)]
pub enum PreferenceReset {
    ColorMode(ColorMode),
    Theme(ThemeSettings),
    Browser(BrowserSettings),
}

/// Whether a preference is part of the theme settings.
pub open spec fn is_theme_option(option: PreferenceOption) -> bool {
    match option {
        PreferenceOption::LightAccent | PreferenceOption::DarkAccent
        | PreferenceOption::BackgroundOpacity | PreferenceOption::ContextMenuBlurStrength
        | PreferenceOption::ContextMenuBlurKernelSize | PreferenceOption::BorderRadius => true,
        _ => false,
    }
}

/// The theme settings with one preference set back to its default.
pub open spec fn theme_reset_spec(option: PreferenceOption, theme: ThemeSettingsView) -> ThemeSettingsView {
    let d = default_theme_view();
    match option {
        PreferenceOption::LightAccent => ThemeSettingsView { light_highlight: d.light_highlight, ..theme },
        PreferenceOption::DarkAccent => ThemeSettingsView { dark_highlight: d.dark_highlight, ..theme },
        PreferenceOption::BackgroundOpacity => ThemeSettingsView {
            background_opacity: d.background_opacity,
            ..theme
        },
        PreferenceOption::ContextMenuBlurStrength => ThemeSettingsView {
            context_menu_blur_strength: d.context_menu_blur_strength,
            ..theme
        },
        PreferenceOption::ContextMenuBlurKernelSize => ThemeSettingsView {
            context_menu_blur_kernel_size: d.context_menu_blur_kernel_size,
            ..theme
        },
        _ => ThemeSettingsView { border_radius: d.border_radius, ..theme },
    }
}

/// The browser settings with one preference set back to its default.
pub open spec fn browser_reset_spec(option: PreferenceOption, browser: BrowserSettingsView) -> BrowserSettingsView {
    let d = default_browser_view();
    match option {
        PreferenceOption::Layout => BrowserSettingsView { layout: d.layout, ..browser },
        PreferenceOption::ItemSize => BrowserSettingsView { item_size: d.item_size, ..browser },
        PreferenceOption::Preview => BrowserSettingsView { preview_enabled: d.preview_enabled, ..browser },
        PreferenceOption::SingleClickFolders => BrowserSettingsView {
            single_click_opens_folders: d.single_click_opens_folders,
            ..browser
        },
        PreferenceOption::IconTheme => BrowserSettingsView { icon_theme: d.icon_theme, ..browser },
        PreferenceOption::ThumbnailLocation => BrowserSettingsView {
            thumbnail_location: d.thumbnail_location,
            ..browser
        },
        PreferenceOption::Terminal => BrowserSettingsView {
            terminal_command: d.terminal_command,
            ..browser
        },
        PreferenceOption::FileContextMenuItems => BrowserSettingsView {
            file_context_menu_items: d.file_context_menu_items,
            ..browser
        },
        PreferenceOption::FolderContextMenuItems => BrowserSettingsView {
            folder_context_menu_items: d.folder_context_menu_items,
            ..browser
        },
        PreferenceOption::QuickToolbarItems => BrowserSettingsView {
            quick_toolbar_items: d.quick_toolbar_items,
            ..browser
        },
        _ => BrowserSettingsView { keyboard_shortcuts: d.keyboard_shortcuts, ..browser },
    }
}

/// What resetting a preference saves, given the active theme and browser
/// settings.
pub fn reset_preference(option: PreferenceOption, theme: ThemeSettings, browser: BrowserSettings) -> (res:
    PreferenceReset)
    ensures
        option == PreferenceOption::ColorMode ==> res == PreferenceReset::ColorMode(ColorMode::System),
        is_theme_option(option) ==> (res matches PreferenceReset::Theme(t) && t.deep_view()
            == theme_reset_spec(option, theme.deep_view())),
        option != PreferenceOption::ColorMode && !is_theme_option(option) ==> (
        res matches PreferenceReset::Browser(b) && b.deep_view() == browser_reset_spec(
            option,
            browser.deep_view(),
        )),
{
    match option {
        PreferenceOption::ColorMode => PreferenceReset::ColorMode(ColorMode::default()),
        PreferenceOption::LightAccent | PreferenceOption::DarkAccent
        | PreferenceOption::BackgroundOpacity | PreferenceOption::ContextMenuBlurStrength
        | PreferenceOption::ContextMenuBlurKernelSize | PreferenceOption::BorderRadius => {
            let d = default_theme_settings();
            let mut theme = theme;
            match option {
                PreferenceOption::LightAccent => theme.light_highlight = d.light_highlight,
                PreferenceOption::DarkAccent => theme.dark_highlight = d.dark_highlight,
                PreferenceOption::BackgroundOpacity => theme.background_opacity = d.background_opacity,
                PreferenceOption::ContextMenuBlurStrength => theme.context_menu_blur_strength =
                d.context_menu_blur_strength,
                PreferenceOption::ContextMenuBlurKernelSize => theme.context_menu_blur_kernel_size =
                d.context_menu_blur_kernel_size,
                _ => theme.border_radius = d.border_radius,
            }
            PreferenceReset::Theme(theme)
        },
        _ => {
            let d = default_browser_settings();
            let mut browser = browser;
            match option {
                PreferenceOption::Layout => browser.layout = d.layout,
                PreferenceOption::ItemSize => browser.item_size = d.item_size,
                PreferenceOption::Preview => browser.preview_enabled = d.preview_enabled,
                PreferenceOption::SingleClickFolders => browser.single_click_opens_folders =
                d.single_click_opens_folders,
                PreferenceOption::IconTheme => browser.icon_theme = d.icon_theme,
                PreferenceOption::ThumbnailLocation => browser.thumbnail_location =
                d.thumbnail_location,
                PreferenceOption::Terminal => browser.terminal_command = d.terminal_command,
                PreferenceOption::FileContextMenuItems => browser.file_context_menu_items =
                d.file_context_menu_items,
                PreferenceOption::FolderContextMenuItems => browser.folder_context_menu_items =
                d.folder_context_menu_items,
                PreferenceOption::QuickToolbarItems => browser.quick_toolbar_items =
                d.quick_toolbar_items,
                _ => browser.keyboard_shortcuts = d.keyboard_shortcuts,
            }
            PreferenceReset::Browser(browser)
        },
    }
}

/// The browser settings as they read back once saved: `~/` in the
/// thumbnail location resolved against the home folder.
pub open spec fn read_back(browser: BrowserSettingsView, home: Option<Seq<char>>) -> BrowserSettingsView {
    BrowserSettingsView {
        thumbnail_location: expand_home_spec(browser.thumbnail_location, home),
        ..browser
    }
}

/// A preference that was reset has its default value once the saved
/// settings are read back, and resetting it changes nothing else.
pub proof fn lemma_reset_matches_default(
    option: PreferenceOption,
    theme: ThemeSettingsView,
    browser: BrowserSettingsView,
    home: Option<Seq<char>>,
)
    ensures
        option == PreferenceOption::ColorMode ==> matches_default_spec(
            option,
            ColorMode::System,
            theme,
            browser,
            home,
        ),
        is_theme_option(option) ==> matches_default_spec(
            option,
            ColorMode::System,
            theme_reset_spec(option, theme),
            browser,
            home,
        ),
        option != PreferenceOption::ColorMode && !is_theme_option(option) ==> matches_default_spec(
            option,
            ColorMode::System,
            theme,
            read_back(browser_reset_spec(option, browser), home),
            home,
        ),
        forall|other: PreferenceOption|
            other != option && is_theme_option(option) ==> (matches_default_spec(
                other,
                ColorMode::System,
                theme_reset_spec(option, theme),
                browser,
                home,
            ) == matches_default_spec(other, ColorMode::System, theme, browser, home)),
{
}

/// Finds the active profile, which a change of a preference is saved to:
/// the first profile whose path is the active path, compared component by
/// component.
pub fn active_profile_index(active: Option<&str>, profiles: &Vec<crate::config::Profile>) -> (res: Result<
    usize,
    String,
>)
    ensures
        match active {
            None => res matches Err(e) && e@ == "No active configuration profile"@,
            Some(p) => match res {
                Ok(i) => i < profiles@.len() && crate::paths::same_path(profiles@[i as int].path@, p@)
                    && forall|k: int|
                    0 <= k < i ==> !crate::paths::same_path(#[trigger] profiles@[k].path@, p@),
                Err(e) => e@ == "The active configuration profile is unavailable"@ && forall|k: int|
                    0 <= k < profiles@.len() ==> !crate::paths::same_path(
                        #[trigger] profiles@[k].path@,
                        p@,
                    ),
            },
        },
{
    let path = match active {
        None => {
            return Err("No active configuration profile".to_owned());
        },
        Some(p) => p,
    };
    let key = crate::paths::path_key(path);
    let mut i: usize = 0;
    while i < profiles.len()
        invariant
            active == Some(path),
            key@ == crate::paths::path_key_spec(path@),
            i <= profiles@.len(),
            forall|k: int| 0 <= k < i ==> !crate::paths::same_path(#[trigger] profiles@[k].path@, path@),
        decreases profiles@.len() - i,
    {
        let candidate = crate::paths::path_key(profiles[i].path.as_str());
        if crate::text::chars_equal(&candidate, &key) {
            return Ok(i);
        }
        i = i + 1;
    }
    Err("The active configuration profile is unavailable".to_owned())
}

/// The value of a hexadecimal digit given as an ASCII byte.
pub open spec fn hex_digit_value(b: u8) -> Option<nat> {
    if 48 <= b <= 57 {
        Some((b - 48) as nat)
    } else if 97 <= b <= 102 {
        Some((b - 87) as nat)
    } else if 65 <= b <= 70 {
        Some((b - 55) as nat)
    } else {
        None
    }
}

/// Two bytes read as a hexadecimal `u8` (`u8::from_str_radix(_, 16)`,
/// which allows a leading `+`).
pub open spec fn hex_pair(b0: u8, b1: u8) -> Option<u8> {
    if b0 == 43 {
        match hex_digit_value(b1) {
            Some(v) => Some(v as u8),
            None => None,
        }
    } else {
        match (hex_digit_value(b0), hex_digit_value(b1)) {
            (Some(h), Some(l)) => Some((16 * h + l) as u8),
            _ => None,
        }
    }
}

/// Whether reading a colour slices its six bytes at character boundaries,
/// as it must not slice a character apart.
pub open spec fn hex_color_sliceable(value: Seq<char>) -> bool {
    let rest = vstd::utf8::encode_utf8(value.drop_first());
    value.len() > 0 && value[0] == '#' && rest.len() == 6 ==> vstd::utf8::is_char_boundary(rest, 2)
        && vstd::utf8::is_char_boundary(rest, 4)
}

/// A colour written `#rrggbb`: a `#` and six bytes read as three
/// hexadecimal bytes.
pub open spec fn hex_color_spec(value: Seq<char>) -> Option<(u8, u8, u8)> {
    if value.len() == 0 || value[0] != '#' {
        None
    } else {
        let rest = vstd::utf8::encode_utf8(value.drop_first());
        if rest.len() != 6 {
            None
        } else {
            match (hex_pair(rest[0], rest[1]), hex_pair(rest[2], rest[3]), hex_pair(rest[4], rest[5])) {
                (Some(r), Some(g), Some(b)) => Some((r, g, b)),
                _ => None,
            }
        }
    }
}

fn hex_digit(b: u8) -> (res: Option<u8>)
    ensures
        match hex_digit_value(b) {
            Some(v) => res == Some(v as u8) && v < 16,
            None => res is None,
        },
{
    if 48 <= b && b <= 57 {
        Some(b - 48)
    } else if 97 <= b && b <= 102 {
        Some(b - 87)
    } else if 65 <= b && b <= 70 {
        Some(b - 55)
    } else {
        None
    }
}

fn hex_byte_pair(b0: u8, b1: u8) -> (res: Option<u8>)
    ensures
        res == hex_pair(b0, b1),
{
    if b0 == 43 {
        return hex_digit(b1);
    }
    match (hex_digit(b0), hex_digit(b1)) {
        (Some(h), Some(l)) => Some(16 * h + l),
        _ => None,
    }
}

/// Reads an accent colour written `#rrggbb`.
pub fn parse_hex_color(value: &str) -> (res: Option<(u8, u8, u8)>)
    requires
        hex_color_sliceable(value@),
    ensures
        res == hex_color_spec(value@),
{
    let chars = crate::text::chars_of(value);
    if chars.len() == 0 || chars[0] != '#' {
        return None;
    }
    let bytes = value.as_bytes();
    proof {
        let s = value@;
        assert(vstd::utf8::encode_utf8(s) == vstd::utf8::encode_scalar(s[0] as u32)
            + vstd::utf8::encode_utf8(s.drop_first()));
        assert((0x23u32 & 0x7F) as u8 == 0x23u8) by (bit_vector);
        assert(vstd::utf8::encode_scalar(s[0] as u32) =~= seq![0x23u8]);
    }
    let ghost rest = vstd::utf8::encode_utf8(value@.drop_first());
    assert(bytes@ =~= seq![0x23u8] + rest);
    if bytes.len() != 7 {
        return None;
    }
    assert(forall|k: int| 0 <= k < 6 ==> bytes@[k + 1] == rest[k]);
    let red = hex_byte_pair(bytes[1], bytes[2]);
    let green = hex_byte_pair(bytes[3], bytes[4]);
    let blue = hex_byte_pair(bytes[5], bytes[6]);
    match (red, green, blue) {
        (Some(r), Some(g), Some(b)) => Some((r, g, b)),
        _ => None,
    }
}

/// The settings in effect: those of the active profile, or the defaults
/// (and an empty sidebar) when no profile is active or it is unavailable.
pub struct ActiveSettings {
    pub theme: ThemeSettings,
    pub browser: BrowserSettings,
    pub sidebar_locations: Vec<crate::config::SidebarLocation>,
}

/// The settings of the active profile among `profiles`.
pub fn active_settings(active: Option<&str>, profiles: Vec<crate::config::Profile>) -> (res: ActiveSettings)
    ensures
        match active {
            Some(p) => {
                if exists|k: int| 0 <= k < profiles@.len() && crate::paths::same_path(#[trigger] profiles@[k].path@, p@) {
                    exists|i: int|
                        0 <= i < profiles@.len() && crate::paths::same_path(profiles@[i].path@, p@)
                            && (forall|k: int| 0 <= k < i ==> !crate::paths::same_path(#[trigger] profiles@[k].path@, p@))
                            && res.theme.deep_view() == profiles@[i].theme.deep_view()
                            && res.browser.deep_view() == profiles@[i].browser.deep_view()
                            && res.sidebar_locations.deep_view() == profiles@[i].sidebar_locations.deep_view()
                } else {
                    res.theme.deep_view() == default_theme_view() && res.browser.deep_view()
                        == default_browser_view() && res.sidebar_locations@.len() == 0
                }
            },
            None => res.theme.deep_view() == default_theme_view() && res.browser.deep_view()
                == default_browser_view() && res.sidebar_locations@.len() == 0,
        },
{
    match active_profile_index(active, &profiles) {
        Ok(i) => {
            let ghost chosen = profiles@[i as int];
            let mut profiles = profiles;
            let profile = profiles.remove(i);
            assert(profile == chosen);
            let crate::config::Profile { theme, browser, sidebar_locations, .. } = profile;
            ActiveSettings { theme, browser, sidebar_locations }
        },
        Err(_) => ActiveSettings {
            theme: default_theme_settings(),
            browser: default_browser_settings(),
            sidebar_locations: Vec::new(),
        },
    }
}

/// The profile active when the browser starts: the one the state file
/// names if it was read, else the first profile.
pub fn initial_active_profile(stored: Option<String>, profiles: &Vec<crate::config::Profile>) -> (res:
    Option<String>)
    ensures
        match stored {
            Some(p) => if exists|k: int|
                0 <= k < profiles@.len() && crate::paths::same_path(#[trigger] profiles@[k].path@, p@) {
                res matches Some(r) && r@ == p@
            } else if profiles@.len() > 0 {
                res matches Some(r) && r@ == profiles@[0].path@
            } else {
                res is None
            },
            None => if profiles@.len() > 0 {
                res matches Some(r) && r@ == profiles@[0].path@
            } else {
                res is None
            },
        },
{
    match stored {
        Some(p) => {
            if active_profile_index(Some(p.as_str()), profiles).is_ok() {
                return Some(p);
            }
        },
        None => {},
    }
    if profiles.len() > 0 {
        Some(profiles[0].path.as_str().to_owned())
    } else {
        None
    }
}

/// The key profiles are ordered by when a new one joins the list: the
/// name as it is (case-sensitive).
pub open spec fn profile_name_key(p: crate::config::ProfileView) -> (u8, Seq<char>) {
    (0, p.name)
}

/// The profiles after one was saved: the saved profile takes the place of
/// the first profile with the same path; a profile new to the list is added
/// and the list ordered by name, equal names keeping their order.
pub fn profiles_after_save(profiles: Vec<crate::config::Profile>, saved: crate::config::Profile) -> (res: Vec<
    crate::config::Profile,
>)
    ensures
        ({
            let views = profiles.deep_view();
            let found = exists|k: int|
                0 <= k < views.len() && crate::paths::same_path(#[trigger] views[k].path, saved.deep_view().path);
            &&& found ==> exists|i: int|
                0 <= i < views.len() && crate::paths::same_path(views[i].path, saved.deep_view().path) && (
                forall|k: int|
                    0 <= k < i ==> !crate::paths::same_path(#[trigger] views[k].path, saved.deep_view().path))
                    && res.deep_view() == views.update(i, saved.deep_view())
            &&& !found ==> is_stable_sort_of(
                res.deep_view(),
                views.push(saved.deep_view()),
                views.push(saved.deep_view()).map_values(
                    |p: crate::config::ProfileView| profile_name_key(p),
                ),
                false,
            )
        }),
{
    let ghost views = profiles.deep_view();
    let ghost sv = saved.deep_view();
    match active_profile_index(Some(saved.path.as_str()), &profiles) {
        Ok(i) => {
            assert(views[i as int].path == profiles@[i as int].path@);
            assert forall|k: int| 0 <= k < i implies !crate::paths::same_path(
                #[trigger] views[k].path,
                sv.path,
            ) by {
                assert(views[k].path == profiles@[k].path@);
            }
            let mut profiles = profiles;
            let ghost before = profiles@;
            profiles.set(i, saved);
            assert(profiles.deep_view() =~= views.update(i as int, sv)) by {
                assert forall|k: int| 0 <= k < profiles@.len() implies profiles.deep_view()[k]
                    == views.update(i as int, sv)[k] by {
                    if k != i {
                        assert(profiles@[k] == before[k]);
                    }
                }
            }
            profiles
        },
        Err(_) => {
            assert forall|k: int| 0 <= k < views.len() implies !crate::paths::same_path(
                #[trigger] views[k].path,
                sv.path,
            ) by {
                assert(views[k].path == profiles@[k].path@);
            }
            let mut profiles = profiles;
            let ghost before = profiles@;
            profiles.push(saved);
            let ghost pushed = profiles.deep_view();
            assert(pushed =~= views.push(sv)) by {
                assert forall|k: int| 0 <= k < profiles@.len() implies profiles.deep_view()[k]
                    == views.push(sv)[k] by {
                    if k < before.len() {
                        assert(profiles@[k] == before[k]);
                    }
                }
            }
            let mut keys: Vec<crate::sorting::SortKey> = Vec::new();
            let mut j: usize = 0;
            while j < profiles.len()
                invariant
                    pushed == profiles.deep_view(),
                    j <= pushed.len(),
                    keys@.len() == j,
                    forall|k: int|
                        0 <= k < j ==> #[trigger] keys@[k].deep_view() == profile_name_key(pushed[k]),
                decreases pushed.len() - j,
            {
                assert(profiles@[j as int].deep_view() == pushed[j as int]);
                keys.push(
                    crate::sorting::SortKey { rank: 0, text: crate::text::chars_of(profiles[j].name.as_str()) },
                );
                j = j + 1;
            }
            assert(keys.deep_view() =~= pushed.map_values(
                |p: crate::config::ProfileView| profile_name_key(p),
            ));
            let ghost items = profiles@;
            let sorted = crate::sorting::stable_sort(profiles, &keys, false);
            proof {
                crate::sorting::lemma_stable_sort_map(
                    sorted@,
                    items,
                    keys.deep_view(),
                    false,
                    |p: crate::config::Profile| p.deep_view(),
                );
                assert(items.map_values(|p: crate::config::Profile| p.deep_view()) =~= pushed);
                assert(sorted@.map_values(|p: crate::config::Profile| p.deep_view()) =~= sorted.deep_view());
            }
            sorted
        },
    }
}

} // verus!

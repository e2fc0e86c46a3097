//! Configuration model: profiles, theme and browser settings, their defaults,
//! and the rules by which profiles are named, resolved, overlaid and saved.
//! Reading and writing the TOML files is left to the caller; every decision
//! about what is read, merged and written stands here.
use vstd::prelude::*;
use crate::text::{
    chars_of, decimal, extend_chars, extend_str, radix_digits, string_from_chars, trim_class,
    strip_both, CharClass, lower_hex,
};
use crate::paths::{
    expand_home_path, expand_home_spec, extension_chars, file_stem_chars, file_stem_spec,
    first_occurrences, join, join_spec, path_extension_spec, unique,
};
use crate::sorting::{is_stable_sort_of, lowercase_chars, stable_sort, SortKey};

verus! {

/// The colour scheme of the interface.
#[derive(Debug, Clone, Copy, PartialEq, Eq, Structural)]
pub enum ColorMode {
    Day,
    Night,
    System,
}

impl Default for ColorMode {
    fn default() -> (res: Self)
        ensures
            res == ColorMode::System,
    {
        ColorMode::System
    }
}

/// The Gaussian kernel used to blur the backdrop of context menus.
#[derive(Debug, Clone, Copy, PartialEq, Eq, Structural)]
pub enum ContextMenuBlurKernelSize {
    Fixed(u8),
    Dynamic,
}

/// The fixed kernel sizes a configuration may name: the odd sizes 3 to 31.
pub open spec fn is_supported_kernel_size(size: int) -> bool {
    3 <= size <= 31 && size % 2 == 1
}

/// The window `6 * sigma + 1` of the dynamic kernel, computed with
/// saturating `u8` arithmetic and clamped to 3..=31.
pub open spec fn dynamic_kernel_size(strength: u8) -> u8 {
    let scaled: int = if 6 * strength > 255 {
        255
    } else {
        6 * strength
    };
    let plus_one: int = if scaled + 1 > 255 {
        255
    } else {
        scaled + 1
    };
    let clamped: int = if plus_one < 3 {
        3
    } else if plus_one > 31 {
        31
    } else {
        plus_one
    };
    clamped as u8
}

pub open spec fn effective_size_spec(kernel: ContextMenuBlurKernelSize, strength: u8) -> u8 {
    match kernel {
        ContextMenuBlurKernelSize::Fixed(size) => size,
        ContextMenuBlurKernelSize::Dynamic => dynamic_kernel_size(strength),
    }
}

/// Whether a kernel is one that a configuration can hold.
pub open spec fn is_valid_kernel(kernel: ContextMenuBlurKernelSize) -> bool {
    match kernel {
        ContextMenuBlurKernelSize::Fixed(size) => is_supported_kernel_size(size as int),
        ContextMenuBlurKernelSize::Dynamic => true,
    }
}

/// How a kernel size is written to a configuration file.
#[derive(Debug, PartialEq, Eq)]
pub enum KernelSizeValue {
    Integer(u8),
    Text(String),
}

/// The outcome of reading a decimal `u8` (`str::parse::<u8>`).
#[derive(Debug, Clone, Copy, PartialEq, Eq, Structural)]
pub enum U8Parse {
    Value(u8),
    Empty,
    InvalidDigit,
    Overflow,
}

pub open spec fn is_ascii_digit(c: char) -> bool {
    '0' <= c <= '9'
}

/// Reads decimal digits onto an accumulated value; a non-digit is reported
/// before an overflow at the same position.
pub open spec fn parse_digits_spec(digits: Seq<char>, acc: nat) -> U8Parse
    decreases digits.len(),
{
    if digits.len() == 0 {
        U8Parse::Value(acc as u8)
    } else if !is_ascii_digit(digits[0]) {
        U8Parse::InvalidDigit
    } else {
        let next = acc * 10 + (digits[0] as u32 - 48);
        if next > 255 {
            U8Parse::Overflow
        } else {
            parse_digits_spec(digits.drop_first(), next as nat)
        }
    }
}

/// `str::parse::<u8>`: an optional leading `+`, then decimal digits.
pub open spec fn parse_u8_spec(s: Seq<char>) -> U8Parse {
    if s.len() == 0 {
        U8Parse::Empty
    } else if (s[0] == '+' || s[0] == '-') && s.len() == 1 {
        U8Parse::InvalidDigit
    } else if s[0] == '+' {
        parse_digits_spec(s.drop_first(), 0)
    } else {
        parse_digits_spec(s, 0)
    }
}

/// Parses a decimal `u8`.
pub fn parse_u8(s: &Vec<char>) -> (res: U8Parse)
    ensures
        res == parse_u8_spec(s@),
{
    let n = s.len();
    if n == 0 {
        return U8Parse::Empty;
    }
    if (s[0] == '+' || s[0] == '-') && n == 1 {
        return U8Parse::InvalidDigit;
    }
    let start: usize = if s[0] == '+' {
        1
    } else {
        0
    };
    let ghost digits = s@.subrange(start as int, n as int);
    proof {
        if start == 1 {
            assert(digits =~= s@.drop_first());
        } else {
            assert(digits =~= s@);
        }
    }
    assert(parse_u8_spec(s@) == parse_digits_spec(digits, 0));
    let mut acc: u32 = 0;
    let mut i: usize = start;
    while i < n
        invariant
            start <= i <= n,
            n == s@.len(),
            acc <= 255,
            digits == s@.subrange(start as int, n as int),
            parse_u8_spec(s@) == parse_digits_spec(digits, 0),
            parse_digits_spec(digits, 0) == parse_digits_spec(
                s@.subrange(i as int, n as int),
                acc as nat,
            ),
        decreases n - i,
    {
        let ghost rest = s@.subrange(i as int, n as int);
        assert(rest[0] == s@[i as int]);
        assert(rest.drop_first() =~= s@.subrange(i + 1, n as int));
        let c = s[i];
        if !('0' <= c && c <= '9') {
            return U8Parse::InvalidDigit;
        }
        let next = acc * 10 + (c as u32 - 48);
        if next > 255 {
            return U8Parse::Overflow;
        }
        acc = next;
        i = i + 1;
    }
    assert(s@.subrange(n as int, n as int).len() == 0);
    U8Parse::Value(acc as u8)
}

/// `format!("unsupported context menu blur kernel size: {size}")`.
pub open spec fn unsupported_size_message(size: u8) -> Seq<char> {
    "unsupported context menu blur kernel size: "@ + radix_digits(size as nat, 10)
}

/// The message of `TryFromIntError`.
pub open spec fn out_of_range_message() -> Seq<char> {
    "out of range integral type conversion attempted"@
}

/// The message of a `ParseIntError` of the given kind.
pub open spec fn parse_error_message(outcome: U8Parse) -> Seq<char> {
    match outcome {
        U8Parse::Empty => "cannot parse integer from empty string"@,
        U8Parse::InvalidDigit => "invalid digit found in string"@,
        _ => "number too large to fit in target type"@,
    }
}

/// The text that selects the dynamic kernel in a configuration file.
pub open spec fn dynamic_kernel_text() -> Seq<char> {
    "6sigma+1"@
}

/// What `from_config_str` gives for a text.
pub open spec fn kernel_from_text_spec(value: Seq<char>) -> Result<ContextMenuBlurKernelSize, Seq<char>> {
    if value == dynamic_kernel_text() {
        Ok(ContextMenuBlurKernelSize::Dynamic)
    } else {
        match parse_u8_spec(value) {
            U8Parse::Value(size) => if is_supported_kernel_size(size as int) {
                Ok(ContextMenuBlurKernelSize::Fixed(size))
            } else {
                Err(unsupported_size_message(size))
            },
            other => Err(parse_error_message(other)),
        }
    }
}

fn message(text: &str) -> (res: String)
    ensures
        res@ == text@,
{
    let chars = chars_of(text);
    string_from_chars(&chars)
}

fn parse_error_text(outcome: U8Parse) -> (res: String)
    requires
        !(outcome is Value),
    ensures
        res@ == parse_error_message(outcome),
{
    match outcome {
        U8Parse::Empty => message("cannot parse integer from empty string"),
        U8Parse::InvalidDigit => message("invalid digit found in string"),
        _ => message("number too large to fit in target type"),
    }
}

impl ContextMenuBlurKernelSize {
    /// The kernel size used for a blur of the given strength (sigma).
    pub fn effective_size(self, strength: u8) -> (res: u8)
        ensures
            res == effective_size_spec(self, strength),
    {
        match self {
            ContextMenuBlurKernelSize::Fixed(size) => size,
            ContextMenuBlurKernelSize::Dynamic => {
                let scaled: u8 = if strength > 42 {
                    255
                } else {
                    strength * 6
                };
                let plus_one = scaled.saturating_add(1);
                if plus_one < 3 {
                    3
                } else if plus_one > 31 {
                    31
                } else {
                    plus_one
                }
            },
        }
    }

    /// A fixed kernel of the given size, if the size is supported.
    pub fn fixed(size: u8) -> (res: Result<Self, String>)
        ensures
            is_supported_kernel_size(size as int) ==> res == Ok::<Self, String>(
                ContextMenuBlurKernelSize::Fixed(size),
            ),
            !is_supported_kernel_size(size as int) ==> (res matches Err(e) && e@
                == unsupported_size_message(size)),
    {
        if 3 <= size && size <= 31 && size % 2 == 1 {
            Ok(ContextMenuBlurKernelSize::Fixed(size))
        } else {
            let mut text = chars_of("unsupported context menu blur kernel size: ");
            let digits = decimal(size as u64);
            extend_chars(&mut text, &digits);
            Err(string_from_chars(&text))
        }
    }

    /// Reads a kernel size written as an unsigned integer.
    pub fn from_config_u64(value: u64) -> (res: Result<Self, String>)
        ensures
            value > 255 ==> (res matches Err(e) && e@ == out_of_range_message()),
            value <= 255 && is_supported_kernel_size(value as int) ==> res == Ok::<Self, String>(
                ContextMenuBlurKernelSize::Fixed(value as u8),
            ),
            value <= 255 && !is_supported_kernel_size(value as int) ==> (res matches Err(e) && e@
                == unsupported_size_message(value as u8)),
    {
        if value > 255 {
            return Err(message("out of range integral type conversion attempted"));
        }
        Self::fixed(value as u8)
    }

    /// Reads a kernel size written as a signed integer.
    pub fn from_config_i64(value: i64) -> (res: Result<Self, String>)
        ensures
            !(0 <= value <= 255) ==> (res matches Err(e) && e@ == out_of_range_message()),
            0 <= value <= 255 && is_supported_kernel_size(value as int) ==> res == Ok::<
                Self,
                String,
            >(ContextMenuBlurKernelSize::Fixed(value as u8)),
            0 <= value <= 255 && !is_supported_kernel_size(value as int) ==> (res matches Err(e)
                && e@ == unsupported_size_message(value as u8)),
    {
        if value < 0 || value > 255 {
            return Err(message("out of range integral type conversion attempted"));
        }
        Self::fixed(value as u8)
    }

    /// Reads a kernel size written as text: `6sigma+1` or a decimal size.
    pub fn from_config_str(value: &str) -> (res: Result<Self, String>)
        ensures
            match (res, kernel_from_text_spec(value@)) {
                (Ok(k), Ok(expected)) => k == expected,
                (Err(e), Err(expected)) => e@ == expected,
                _ => false,
            },
    {
        let chars = chars_of(value);
        let token = chars_of("6sigma+1");
        if crate::text::chars_equal(&chars, &token) {
            return Ok(ContextMenuBlurKernelSize::Dynamic);
        }
        match parse_u8(&chars) {
            U8Parse::Value(size) => Self::fixed(size),
            other => Err(parse_error_text(other)),
        }
    }

    /// How the kernel size is written to a configuration file.
    pub fn config_value(self) -> (res: KernelSizeValue)
        ensures
            match self {
                ContextMenuBlurKernelSize::Fixed(size) => res == KernelSizeValue::Integer(size),
                ContextMenuBlurKernelSize::Dynamic => res matches KernelSizeValue::Text(t) && t@
                    == dynamic_kernel_text(),
            },
    {
        match self {
            ContextMenuBlurKernelSize::Fixed(size) => KernelSizeValue::Integer(size),
            ContextMenuBlurKernelSize::Dynamic => KernelSizeValue::Text(message("6sigma+1")),
        }
    }

    /// The label shown for the kernel size.
    pub fn label(self) -> (res: String)
        ensures
            match self {
                ContextMenuBlurKernelSize::Fixed(size) => res@ == radix_digits(size as nat, 10)
                    + " x "@ + radix_digits(size as nat, 10),
                ContextMenuBlurKernelSize::Dynamic => res@ == "6sigma + 1"@,
            },
    {
        match self {
            ContextMenuBlurKernelSize::Fixed(size) => {
                let digits = decimal(size as u64);
                let mut text: Vec<char> = Vec::new();
                extend_chars(&mut text, &digits);
                extend_str(&mut text, " x ");
                extend_chars(&mut text, &digits);
                string_from_chars(&text)
            },
            ContextMenuBlurKernelSize::Dynamic => message("6sigma + 1"),
        }
    }

    /// Every kernel a configuration can select, in the order offered.
    pub fn options() -> (res: Vec<Self>)
        ensures
            res@.len() == 16,
            forall|i: int| 0 <= i < 15 ==> res@[i] == ContextMenuBlurKernelSize::Fixed(
                (3 + 2 * i) as u8,
            ),
            res@[15] == ContextMenuBlurKernelSize::Dynamic,
    {
        let mut res: Vec<Self> = Vec::new();
        let mut size: u8 = 3;
        while size <= 31
            invariant
                3 <= size <= 33,
                size % 2 == 1,
                res@.len() == (size - 3) / 2,
                forall|i: int| 0 <= i < res@.len() ==> res@[i] == ContextMenuBlurKernelSize::Fixed(
                    (3 + 2 * i) as u8,
                ),
            decreases 33 - size,
        {
            res.push(ContextMenuBlurKernelSize::Fixed(size));
            size = size + 2;
        }
        res.push(ContextMenuBlurKernelSize::Dynamic);
        res
    }
}

impl Default for ContextMenuBlurKernelSize {
    fn default() -> (res: Self)
        ensures
            res == ContextMenuBlurKernelSize::Dynamic,
    {
        default_context_menu_blur_kernel_size()
    }
}

/// The background opacity when a theme does not name one.
pub fn default_background_opacity() -> (res: u8)
    ensures
        res == 100,
{
    100
}

/// The blur strength when a theme does not name one.
pub fn default_context_menu_blur_strength() -> (res: u8)
    ensures
        res == 2,
{
    2
}

/// The blur kernel when a theme does not name one.
pub fn default_context_menu_blur_kernel_size() -> (res: ContextMenuBlurKernelSize)
    ensures
        res == ContextMenuBlurKernelSize::Dynamic,
{
    ContextMenuBlurKernelSize::Dynamic
}

/// The border radius when a theme does not name one.
pub fn default_border_radius() -> (res: u8)
    ensures
        res == 6,
{
    6
}


/// How the entries of a folder are laid out.
#[derive(Debug, Clone, Copy, PartialEq, Eq, Structural)]
pub enum BrowserLayout {
    List,
    Tiles,
}

/// An action offered in the context menu of a file or folder.
#[derive(Debug, Clone, Copy, PartialEq, Eq, Hash, Structural)]
pub enum ContextMenuItem {
    CreateFolder,
    CreateFile,
    Rename,
    Open,
    CopyLocation,
    CopySelection,
    DeleteSelection,
    Paste,
    ToggleSidebarLocation,
    CreateSymlink,
    AddSymlinkToPasteBuffer,
    OpenTerminal,
}

impl ContextMenuItem {
    /// Every context menu item, in the order offered.
    pub fn all_items() -> (res: Vec<Self>)
        ensures
            res@ == seq![
                ContextMenuItem::CreateFolder,
                ContextMenuItem::CreateFile,
                ContextMenuItem::Rename,
                ContextMenuItem::Open,
                ContextMenuItem::CopyLocation,
                ContextMenuItem::CopySelection,
                ContextMenuItem::DeleteSelection,
                ContextMenuItem::Paste,
                ContextMenuItem::ToggleSidebarLocation,
                ContextMenuItem::CreateSymlink,
                ContextMenuItem::AddSymlinkToPasteBuffer,
                ContextMenuItem::OpenTerminal,
            ],
    {
        let res = vec![
            ContextMenuItem::CreateFolder,
            ContextMenuItem::CreateFile,
            ContextMenuItem::Rename,
            ContextMenuItem::Open,
            ContextMenuItem::CopyLocation,
            ContextMenuItem::CopySelection,
            ContextMenuItem::DeleteSelection,
            ContextMenuItem::Paste,
            ContextMenuItem::ToggleSidebarLocation,
            ContextMenuItem::CreateSymlink,
            ContextMenuItem::AddSymlinkToPasteBuffer,
            ContextMenuItem::OpenTerminal,
        ];
        res
    }

    /// The items that apply to files, in their default order.
    pub fn file_options() -> (res: Vec<Self>)
        ensures
            res@ == file_menu_defaults(),
    {
        vec![
            ContextMenuItem::Open,
            ContextMenuItem::Rename,
            ContextMenuItem::CopyLocation,
            ContextMenuItem::CopySelection,
            ContextMenuItem::DeleteSelection,
        ]
    }

    /// The items that apply to folders, in their default order.
    pub fn folder_options() -> (res: Vec<Self>)
        ensures
            res@ == folder_menu_defaults(),
    {
        vec![
            ContextMenuItem::CreateFolder,
            ContextMenuItem::CreateFile,
            ContextMenuItem::Rename,
            ContextMenuItem::CopyLocation,
            ContextMenuItem::CopySelection,
            ContextMenuItem::DeleteSelection,
            ContextMenuItem::Paste,
            ContextMenuItem::ToggleSidebarLocation,
            ContextMenuItem::CreateSymlink,
            ContextMenuItem::AddSymlinkToPasteBuffer,
            ContextMenuItem::OpenTerminal,
        ]
    }

    /// The label shown for the item.
    pub fn label(self) -> (res: String)
        ensures
            res@ == context_menu_item_label(self),
    {
        match self {
            ContextMenuItem::CreateFolder => message("Create folder"),
            ContextMenuItem::CreateFile => message("Create file"),
            ContextMenuItem::Rename => message("Rename"),
            ContextMenuItem::Open => message("Open"),
            ContextMenuItem::CopyLocation => message("Copy location"),
            ContextMenuItem::CopySelection => message("Copy selection"),
            ContextMenuItem::DeleteSelection => message("Delete selection"),
            ContextMenuItem::Paste => message("Paste"),
            ContextMenuItem::ToggleSidebarLocation => message("Add or remove sidebar location"),
            ContextMenuItem::CreateSymlink => message("Create symlink"),
            ContextMenuItem::AddSymlinkToPasteBuffer => message("Add symlink to paste buffer"),
            ContextMenuItem::OpenTerminal => message("Open terminal"),
        }
    }
}

pub open spec fn context_menu_item_label(item: ContextMenuItem) -> Seq<char> {
    match item {
        ContextMenuItem::CreateFolder => "Create folder"@,
        ContextMenuItem::CreateFile => "Create file"@,
        ContextMenuItem::Rename => "Rename"@,
        ContextMenuItem::Open => "Open"@,
        ContextMenuItem::CopyLocation => "Copy location"@,
        ContextMenuItem::CopySelection => "Copy selection"@,
        ContextMenuItem::DeleteSelection => "Delete selection"@,
        ContextMenuItem::Paste => "Paste"@,
        ContextMenuItem::ToggleSidebarLocation => "Add or remove sidebar location"@,
        ContextMenuItem::CreateSymlink => "Create symlink"@,
        ContextMenuItem::AddSymlinkToPasteBuffer => "Add symlink to paste buffer"@,
        ContextMenuItem::OpenTerminal => "Open terminal"@,
    }
}

/// The default context menu of files.
pub open spec fn file_menu_defaults() -> Seq<ContextMenuItem> {
    seq![
        ContextMenuItem::Open,
        ContextMenuItem::Rename,
        ContextMenuItem::CopyLocation,
        ContextMenuItem::CopySelection,
        ContextMenuItem::DeleteSelection,
    ]
}

/// The default context menu of folders: creating a folder and a file first.
pub open spec fn folder_menu_defaults() -> Seq<ContextMenuItem> {
    seq![
        ContextMenuItem::CreateFolder,
        ContextMenuItem::CreateFile,
        ContextMenuItem::Rename,
        ContextMenuItem::CopyLocation,
        ContextMenuItem::CopySelection,
        ContextMenuItem::DeleteSelection,
        ContextMenuItem::Paste,
        ContextMenuItem::ToggleSidebarLocation,
        ContextMenuItem::CreateSymlink,
        ContextMenuItem::AddSymlinkToPasteBuffer,
        ContextMenuItem::OpenTerminal,
    ]
}

/// An action offered in the quick toolbar.
#[derive(Debug, Clone, Copy, PartialEq, Eq, Hash, Structural)]
pub enum QuickToolbarItem {
    ToggleHiddenFiles,
    Sort,
    CompressSelection,
    ExtractSelection,
}

pub open spec fn quick_toolbar_defaults() -> Seq<QuickToolbarItem> {
    seq![
        QuickToolbarItem::ToggleHiddenFiles,
        QuickToolbarItem::Sort,
        QuickToolbarItem::CompressSelection,
        QuickToolbarItem::ExtractSelection,
    ]
}

impl QuickToolbarItem {
    /// Every quick toolbar item, in the order offered.
    pub fn all_items() -> (res: Vec<Self>)
        ensures
            res@ == quick_toolbar_defaults(),
    {
        vec![
            QuickToolbarItem::ToggleHiddenFiles,
            QuickToolbarItem::Sort,
            QuickToolbarItem::CompressSelection,
            QuickToolbarItem::ExtractSelection,
        ]
    }

    /// The label shown for the item.
    pub fn label(self) -> (res: String)
        ensures
            res@ == match self {
                QuickToolbarItem::ToggleHiddenFiles => "Show hidden files"@,
                QuickToolbarItem::Sort => "Sort entries"@,
                QuickToolbarItem::CompressSelection => "Compress selection"@,
                QuickToolbarItem::ExtractSelection => "Extract selection"@,
            },
    {
        match self {
            QuickToolbarItem::ToggleHiddenFiles => message("Show hidden files"),
            QuickToolbarItem::Sort => message("Sort entries"),
            QuickToolbarItem::CompressSelection => message("Compress selection"),
            QuickToolbarItem::ExtractSelection => message("Extract selection"),
        }
    }
}

/// The order of the entries of a folder.
#[derive(Debug, Clone, Copy, PartialEq, Eq, Hash, Structural)]
pub enum EntrySortOrder {
    NameAscending,
    NameDescending,
}

impl EntrySortOrder {
    /// Every sort order, in the order offered.
    pub fn all_orders() -> (res: Vec<Self>)
        ensures
            res@ == seq![EntrySortOrder::NameAscending, EntrySortOrder::NameDescending],
    {
        vec![EntrySortOrder::NameAscending, EntrySortOrder::NameDescending]
    }

    /// The label shown for the order.
    pub fn label(self) -> (res: String)
        ensures
            res@ == match self {
                EntrySortOrder::NameAscending => "Name (A-Z)"@,
                EntrySortOrder::NameDescending => "Name (Z-A)"@,
            },
    {
        match self {
            EntrySortOrder::NameAscending => message("Name (A-Z)"),
            EntrySortOrder::NameDescending => message("Name (Z-A)"),
        }
    }
}

/// An action that a keyboard shortcut can trigger.
#[derive(Debug, Clone, Copy, PartialEq, Eq, Hash, Structural)]
pub enum KeyboardShortcutAction {
    RenameSelection,
}

impl KeyboardShortcutAction {
    /// Every action, in the order offered.
    pub fn all_actions() -> (res: Vec<Self>)
        ensures
            res@ == seq![KeyboardShortcutAction::RenameSelection],
    {
        vec![KeyboardShortcutAction::RenameSelection]
    }

    /// The label shown for the action.
    pub fn label(self) -> (res: String)
        ensures
            res@ == "Rename selected entry"@,
    {
        message("Rename selected entry")
    }
}

/// Reading a kernel back from the way it is written gives the same kernel.
pub proof fn lemma_kernel_value_roundtrip(kernel: ContextMenuBlurKernelSize)
    requires
        is_valid_kernel(kernel),
    ensures
        match kernel {
            ContextMenuBlurKernelSize::Fixed(size) => is_supported_kernel_size(size as int),
            ContextMenuBlurKernelSize::Dynamic => kernel_from_text_spec(dynamic_kernel_text())
                == Ok::<ContextMenuBlurKernelSize, Seq<char>>(kernel),
        },
{
}

/// Every kernel a configuration can hold blurs with a supported size, for
/// every strength.
pub proof fn lemma_effective_size_supported(kernel: ContextMenuBlurKernelSize, strength: u8)
    requires
        is_valid_kernel(kernel),
    ensures
        is_supported_kernel_size(effective_size_spec(kernel, strength) as int),
{
    if kernel is Dynamic {
        if strength <= 5 {
            assert(6 * strength + 1 <= 31);
            assert((6 * strength + 1) % 2 == 1);
        }
    }
}

/// The dynamic kernel is `6 * sigma + 1` wide up to the cap of 31, and at
/// least 3 wide.
pub proof fn lemma_dynamic_kernel_width(strength: u8)
    ensures
        1 <= strength <= 5 ==> dynamic_kernel_size(strength) == 6 * strength + 1,
        strength == 0 ==> dynamic_kernel_size(strength) == 3,
        strength >= 5 ==> dynamic_kernel_size(strength) == 31,
{
}

} // verus!

verus! {

/// A folder pinned to the sidebar.
#[derive(Debug, Clone, PartialEq, Eq)]
pub struct SidebarLocation {
    pub label: String,
    pub path: String,
}

pub struct SidebarLocationView {
    pub label: Seq<char>,
    pub path: Seq<char>,
}

impl DeepView for SidebarLocation {
    type V = SidebarLocationView;

    open spec fn deep_view(&self) -> SidebarLocationView {
        SidebarLocationView { label: self.label@, path: self.path@ }
    }
}

/// Colours and shapes of the interface.
#[derive(Debug, Clone, PartialEq, Eq)]
pub struct ThemeSettings {
    pub light_highlight: String,
    pub dark_highlight: String,
    pub background_opacity: u8,
    pub context_menu_blur_strength: u8,
    pub context_menu_blur_kernel_size: ContextMenuBlurKernelSize,
    pub border_radius: u8,
}

pub struct ThemeSettingsView {
    pub light_highlight: Seq<char>,
    pub dark_highlight: Seq<char>,
    pub background_opacity: u8,
    pub context_menu_blur_strength: u8,
    pub context_menu_blur_kernel_size: ContextMenuBlurKernelSize,
    pub border_radius: u8,
}

impl DeepView for ThemeSettings {
    type V = ThemeSettingsView;

    open spec fn deep_view(&self) -> ThemeSettingsView {
        ThemeSettingsView {
            light_highlight: self.light_highlight@,
            dark_highlight: self.dark_highlight@,
            background_opacity: self.background_opacity,
            context_menu_blur_strength: self.context_menu_blur_strength,
            context_menu_blur_kernel_size: self.context_menu_blur_kernel_size,
            border_radius: self.border_radius,
        }
    }
}

/// A key bound to an action.
#[derive(Debug, Clone, PartialEq, Eq)]
pub struct KeyboardShortcut {
    pub action: KeyboardShortcutAction,
    pub key: String,
}

pub struct KeyboardShortcutView {
    pub action: KeyboardShortcutAction,
    pub key: Seq<char>,
}

impl DeepView for KeyboardShortcut {
    type V = KeyboardShortcutView;

    open spec fn deep_view(&self) -> KeyboardShortcutView {
        KeyboardShortcutView { action: self.action, key: self.key@ }
    }
}

/// Settings of the file browser. `legacy_context_menu_items` holds the
/// older single `context_menu_items` list as it was read; it is never written.
#[derive(Debug, Clone, PartialEq, Eq)]
pub struct BrowserSettings {
    pub item_size: u16,
    pub layout: BrowserLayout,
    pub preview_enabled: bool,
    pub show_hidden_files: bool,
    pub single_click_opens_folders: bool,
    pub terminal_command: String,
    pub sidebar_width: u16,
    pub icon_theme: String,
    pub thumbnail_location: String,
    pub file_context_menu_items: Vec<ContextMenuItem>,
    pub folder_context_menu_items: Vec<ContextMenuItem>,
    pub quick_toolbar_items: Vec<QuickToolbarItem>,
    pub sort_order: EntrySortOrder,
    pub keyboard_shortcuts: Vec<KeyboardShortcut>,
    pub legacy_context_menu_items: Option<Vec<ContextMenuItem>>,
}

pub struct BrowserSettingsView {
    pub item_size: u16,
    pub layout: BrowserLayout,
    pub preview_enabled: bool,
    pub show_hidden_files: bool,
    pub single_click_opens_folders: bool,
    pub terminal_command: Seq<char>,
    pub sidebar_width: u16,
    pub icon_theme: Seq<char>,
    pub thumbnail_location: Seq<char>,
    pub file_context_menu_items: Seq<ContextMenuItem>,
    pub folder_context_menu_items: Seq<ContextMenuItem>,
    pub quick_toolbar_items: Seq<QuickToolbarItem>,
    pub sort_order: EntrySortOrder,
    pub keyboard_shortcuts: Seq<KeyboardShortcutView>,
    pub legacy_context_menu_items: Option<Seq<ContextMenuItem>>,
}

pub open spec fn option_items_view(items: Option<Vec<ContextMenuItem>>) -> Option<
    Seq<ContextMenuItem>,
> {
    match items {
        Some(v) => Some(v@),
        None => None,
    }
}

impl DeepView for BrowserSettings {
    type V = BrowserSettingsView;

    open spec fn deep_view(&self) -> BrowserSettingsView {
        BrowserSettingsView {
            item_size: self.item_size,
            layout: self.layout,
            preview_enabled: self.preview_enabled,
            show_hidden_files: self.show_hidden_files,
            single_click_opens_folders: self.single_click_opens_folders,
            terminal_command: self.terminal_command@,
            sidebar_width: self.sidebar_width,
            icon_theme: self.icon_theme@,
            thumbnail_location: self.thumbnail_location@,
            file_context_menu_items: self.file_context_menu_items@,
            folder_context_menu_items: self.folder_context_menu_items@,
            quick_toolbar_items: self.quick_toolbar_items@,
            sort_order: self.sort_order,
            keyboard_shortcuts: self.keyboard_shortcuts.deep_view(),
            legacy_context_menu_items: option_items_view(self.legacy_context_menu_items),
        }
    }
}

/// A resolved configuration profile.
#[derive(Debug, Clone, PartialEq, Eq)]
pub struct Profile {
    pub path: String,
    pub name: String,
    pub color_mode: ColorMode,
    pub sidebar_locations: Vec<SidebarLocation>,
    pub theme: ThemeSettings,
    pub browser: BrowserSettings,
    pub read_only: bool,
    pub base_profile: Option<String>,
}

pub struct ProfileView {
    pub path: Seq<char>,
    pub name: Seq<char>,
    pub color_mode: ColorMode,
    pub sidebar_locations: Seq<SidebarLocationView>,
    pub theme: ThemeSettingsView,
    pub browser: BrowserSettingsView,
    pub read_only: bool,
    pub base_profile: Option<Seq<char>>,
}

impl DeepView for Profile {
    type V = ProfileView;

    open spec fn deep_view(&self) -> ProfileView {
        ProfileView {
            path: self.path@,
            name: self.name@,
            color_mode: self.color_mode,
            sidebar_locations: self.sidebar_locations.deep_view(),
            theme: self.theme.deep_view(),
            browser: self.browser.deep_view(),
            read_only: self.read_only,
            base_profile: self.base_profile.deep_view(),
        }
    }
}

/// The contents of a profile file: every setting is optional, and a
/// profile may name a base profile whose settings fill in the missing ones.
#[derive(Debug, Clone, PartialEq, Eq)]
pub struct ProfileFile {
    pub name: Option<String>,
    pub color_mode: Option<ColorMode>,
    pub sidebar_locations: Option<Vec<SidebarLocation>>,
    pub theme: Option<ThemeSettings>,
    pub browser: Option<BrowserSettings>,
    pub base_profile: Option<String>,
}

pub struct ProfileFileView {
    pub name: Option<Seq<char>>,
    pub color_mode: Option<ColorMode>,
    pub sidebar_locations: Option<Seq<SidebarLocationView>>,
    pub theme: Option<ThemeSettingsView>,
    pub browser: Option<BrowserSettingsView>,
    pub base_profile: Option<Seq<char>>,
}

impl DeepView for ProfileFile {
    type V = ProfileFileView;

    open spec fn deep_view(&self) -> ProfileFileView {
        ProfileFileView {
            name: self.name.deep_view(),
            color_mode: self.color_mode,
            sidebar_locations: self.sidebar_locations.deep_view(),
            theme: self.theme.deep_view(),
            browser: self.browser.deep_view(),
            base_profile: self.base_profile.deep_view(),
        }
    }
}

/// The contents of the state file: which profile is active, and the folder
/// the last picker was showing when it closed.
#[derive(Debug, Clone, PartialEq, Eq)]
pub struct StateFile {
    pub active_profile: Option<String>,
    pub last_picker_directory: Option<String>,
}

pub struct StateFileView {
    pub active_profile: Option<Seq<char>>,
    pub last_picker_directory: Option<Seq<char>>,
}

impl DeepView for StateFile {
    type V = StateFileView;

    open spec fn deep_view(&self) -> StateFileView {
        StateFileView {
            active_profile: self.active_profile.deep_view(),
            last_picker_directory: self.last_picker_directory.deep_view(),
        }
    }
}

/// The state written when a profile is made active: that profile, and the
/// picker folder the state held before.
pub open spec fn active_state(profile: Seq<char>, current: Option<StateFileView>) -> StateFileView {
    StateFileView {
        active_profile: Some(profile),
        last_picker_directory: match current {
            Some(s) => s.last_picker_directory,
            None => None,
        },
    }
}

/// The state written when the picker's folder is remembered: that folder,
/// and the active profile the state held before.
pub open spec fn remembered_state(directory: Seq<char>, current: Option<StateFileView>) -> StateFileView {
    StateFileView {
        active_profile: match current {
            Some(s) => s.active_profile,
            None => None,
        },
        last_picker_directory: Some(directory),
    }
}

/// The active profile a state file names, if it was read.
pub open spec fn stored_active_spec(state: Option<StateFileView>) -> Option<Seq<char>> {
    match state {
        Some(s) => s.active_profile,
        None => None,
    }
}

/// The picker folder a state file remembers, if it was read.
pub open spec fn stored_picker_spec(state: Option<StateFileView>) -> Option<Seq<char>> {
    match state {
        Some(s) => s.last_picker_directory,
        None => None,
    }
}

/// The active profile that a state file, as read, names; whether that
/// profile still exists is for the caller to check.
pub fn stored_active_profile(state: Option<StateFile>) -> (res: Option<String>)
    ensures
        res.deep_view() == stored_active_spec(state.deep_view()),
{
    match state {
        Some(s) => s.active_profile,
        None => None,
    }
}

/// The active profile as read back: the profile the state file names,
/// while a file exists at that path (`exists`); none otherwise.
pub open spec fn active_profile_spec(state: Option<StateFileView>, exists: bool) -> Option<Seq<char>> {
    if exists {
        stored_active_spec(state)
    } else {
        None
    }
}

/// The active profile: the one the state file names, when `exists` says
/// that a file exists at that path.
pub fn active_profile_of(state: Option<StateFile>, exists: bool) -> (res: Option<String>)
    ensures
        res.deep_view() == active_profile_spec(state.deep_view(), exists),
{
    if exists {
        stored_active_profile(state)
    } else {
        None
    }
}

/// The picker folder that a state file, as read, remembers.
pub fn stored_picker_directory(state: Option<StateFile>) -> (res: Option<String>)
    ensures
        res.deep_view() == stored_picker_spec(state.deep_view()),
{
    match state {
        Some(s) => s.last_picker_directory,
        None => None,
    }
}

/// A profile made active is the one read back as active while its file
/// exists (and none is read back when it does not), also after a picker
/// folder was remembered; and a remembered picker folder is read
/// back, also after a profile was made active.
pub proof fn lemma_state_reads_back(
    profile: Seq<char>,
    directory: Seq<char>,
    current: Option<StateFileView>,
)
    ensures
        stored_active_spec(Some(active_state(profile, current))) == Some(profile),
        active_profile_spec(Some(active_state(profile, current)), true) == Some(profile),
        active_profile_spec(Some(active_state(profile, current)), false) is None,
        stored_active_spec(Some(remembered_state(directory, Some(active_state(profile, current)))))
            == Some(profile),
        stored_picker_spec(Some(remembered_state(directory, current))) == Some(directory),
        stored_picker_spec(Some(active_state(profile, Some(remembered_state(directory, current)))))
            == Some(directory),
{
}

} // verus!

verus! {

/// Copies a vector of plain values.
pub fn copy_vec<T: Copy>(v: &Vec<T>) -> (res: Vec<T>)
    ensures
        res@ == v@,
{
    let mut res: Vec<T> = Vec::new();
    let mut i: usize = 0;
    while i < v.len()
        invariant
            i <= v@.len(),
            res@ == v@.subrange(0, i as int),
        decreases v@.len() - i,
    {
        res.push(v[i]);
        i = i + 1;
        assert(res@ =~= v@.subrange(0, i as int));
    }
    assert(v@.subrange(0, v@.len() as int) =~= v@);
    res
}

/// The default accent colours, background, blur and border of the theme.
pub open spec fn default_theme_view() -> ThemeSettingsView {
    ThemeSettingsView {
        light_highlight: "#4f7cac"@,
        dark_highlight: "#8ab4e8"@,
        background_opacity: 100,
        context_menu_blur_strength: 2,
        context_menu_blur_kernel_size: ContextMenuBlurKernelSize::Dynamic,
        border_radius: 6,
    }
}

/// The default keyboard shortcuts: F2 renames the selection.
pub open spec fn default_shortcuts_view() -> Seq<KeyboardShortcutView> {
    seq![KeyboardShortcutView { action: KeyboardShortcutAction::RenameSelection, key: "F2"@ }]
}

/// The default browser settings.
pub open spec fn default_browser_view() -> BrowserSettingsView {
    BrowserSettingsView {
        item_size: 32,
        layout: BrowserLayout::List,
        preview_enabled: true,
        show_hidden_files: false,
        single_click_opens_folders: false,
        terminal_command: "default"@,
        sidebar_width: 200,
        icon_theme: "bundled"@,
        thumbnail_location: "~/.cache/iron-file/thumbnails"@,
        file_context_menu_items: file_menu_defaults(),
        folder_context_menu_items: folder_menu_defaults(),
        quick_toolbar_items: quick_toolbar_defaults(),
        sort_order: EntrySortOrder::NameAscending,
        keyboard_shortcuts: default_shortcuts_view(),
        legacy_context_menu_items: None,
    }
}

/// The default sidebar: home, downloads and pictures, resolved against the
/// home directory.
pub open spec fn default_sidebar_view(home: Option<Seq<char>>) -> Seq<SidebarLocationView> {
    seq![
        SidebarLocationView { label: "Home"@, path: expand_home_spec("~/"@, home) },
        SidebarLocationView { label: "Downloads"@, path: expand_home_spec("~/Downloads"@, home) },
        SidebarLocationView { label: "Pictures"@, path: expand_home_spec("~/Pictures"@, home) },
    ]
}

pub open spec fn opt_view(s: Option<&str>) -> Option<Seq<char>> {
    match s {
        Some(t) => Some(t@),
        None => None,
    }
}

/// The default theme.
pub fn default_theme_settings() -> (res: ThemeSettings)
    ensures
        res.deep_view() == default_theme_view(),
{
    ThemeSettings {
        light_highlight: message("#4f7cac"),
        dark_highlight: message("#8ab4e8"),
        background_opacity: default_background_opacity(),
        context_menu_blur_strength: default_context_menu_blur_strength(),
        context_menu_blur_kernel_size: default_context_menu_blur_kernel_size(),
        border_radius: default_border_radius(),
    }
}

/// The blur strength a `[theme]` table gives: `context_menu_blur_strength`,
/// else the older key `context_menu_blur`, else the default.
pub open spec fn table_strength(strength: Option<u8>, legacy: Option<u8>) -> u8 {
    match strength {
        Some(x) => x,
        None => match legacy {
            Some(x) => x,
            None => default_theme_view().context_menu_blur_strength,
        },
    }
}

/// The theme settings of a profile's `[theme]` table: the two accents as
/// given, and each other setting as given or else its default. The older
/// key `context_menu_blur` is read as the blur strength; a table that gives
/// both keys is refused.
pub fn theme_from_table(
    light_highlight: String,
    dark_highlight: String,
    background_opacity: Option<u8>,
    context_menu_blur_strength: Option<u8>,
    context_menu_blur: Option<u8>,
    context_menu_blur_kernel_size: Option<ContextMenuBlurKernelSize>,
    border_radius: Option<u8>,
) -> (res: Result<ThemeSettings, String>)
    ensures
        context_menu_blur_strength is Some && context_menu_blur is Some ==> (res matches Err(e) && e@
            == "duplicate field `context_menu_blur_strength`"@),
        !(context_menu_blur_strength is Some && context_menu_blur is Some) ==> (res matches Ok(t)
            && t.deep_view() == (ThemeSettingsView {
            light_highlight: light_highlight@,
            dark_highlight: dark_highlight@,
            background_opacity: match background_opacity {
                Some(x) => x,
                None => default_theme_view().background_opacity,
            },
            context_menu_blur_strength: table_strength(context_menu_blur_strength, context_menu_blur),
            context_menu_blur_kernel_size: match context_menu_blur_kernel_size {
                Some(k) => k,
                None => default_theme_view().context_menu_blur_kernel_size,
            },
            border_radius: match border_radius {
                Some(x) => x,
                None => default_theme_view().border_radius,
            },
        })),
{
    let strength = match (context_menu_blur_strength, context_menu_blur) {
        (Some(_), Some(_)) => {
            return Err(message("duplicate field `context_menu_blur_strength`"));
        },
        (Some(x), None) => x,
        (None, Some(x)) => x,
        (None, None) => default_context_menu_blur_strength(),
    };
    Ok(
        ThemeSettings {
            light_highlight,
            dark_highlight,
            background_opacity: match background_opacity {
                Some(x) => x,
                None => default_background_opacity(),
            },
            context_menu_blur_strength: strength,
            context_menu_blur_kernel_size: match context_menu_blur_kernel_size {
                Some(k) => k,
                None => default_context_menu_blur_kernel_size(),
            },
            border_radius: match border_radius {
                Some(x) => x,
                None => default_border_radius(),
            },
        },
    )
}

/// The default keyboard shortcuts.
pub fn default_keyboard_shortcuts() -> (res: Vec<KeyboardShortcut>)
    ensures
        res.deep_view() == default_shortcuts_view(),
{
    let res = vec![
        KeyboardShortcut { action: KeyboardShortcutAction::RenameSelection, key: message("F2") },
    ];
    assert(res.deep_view() =~= default_shortcuts_view());
    res
}

/// Whether a single click opens a folder when the settings do not say.
pub fn default_single_click_opens_folders() -> (res: bool)
    ensures
        res == default_browser_view().single_click_opens_folders,
{
    false
}

/// Whether previews are shown when the settings do not say.
pub fn default_preview_enabled() -> (res: bool)
    ensures
        res == default_browser_view().preview_enabled,
{
    true
}

/// Whether hidden files are shown when the settings do not say.
pub fn default_show_hidden_files() -> (res: bool)
    ensures
        res == default_browser_view().show_hidden_files,
{
    false
}

/// The terminal command when the settings do not name one.
pub fn default_terminal_command() -> (res: String)
    ensures
        res@ == default_browser_view().terminal_command,
{
    message("default")
}

/// The sidebar width when the settings do not name one.
pub fn default_sidebar_width() -> (res: u16)
    ensures
        res == default_browser_view().sidebar_width,
{
    200
}

/// The icon theme when the settings do not name one.
pub fn default_icon_theme() -> (res: String)
    ensures
        res@ == default_browser_view().icon_theme,
{
    message("bundled")
}

/// Where thumbnails are kept when the settings do not say.
pub fn default_thumbnail_location() -> (res: String)
    ensures
        res@ == default_browser_view().thumbnail_location,
{
    message("~/.cache/iron-file/thumbnails")
}

/// The context menu of files when the settings do not name one.
pub fn default_file_context_menu_items() -> (res: Vec<ContextMenuItem>)
    ensures
        res@ == file_menu_defaults(),
{
    ContextMenuItem::file_options()
}

/// The context menu of folders when the settings do not name one.
pub fn default_folder_context_menu_items() -> (res: Vec<ContextMenuItem>)
    ensures
        res@ == folder_menu_defaults(),
{
    ContextMenuItem::folder_options()
}

/// The quick toolbar when the settings do not name one.
pub fn default_quick_toolbar_items() -> (res: Vec<QuickToolbarItem>)
    ensures
        res@ == quick_toolbar_defaults(),
{
    QuickToolbarItem::all_items()
}

/// The sort order when the settings do not name one.
pub fn default_entry_sort_order() -> (res: EntrySortOrder)
    ensures
        res == EntrySortOrder::NameAscending,
{
    EntrySortOrder::NameAscending
}

/// The default browser settings.
pub fn default_browser_settings() -> (res: BrowserSettings)
    ensures
        res.deep_view() == default_browser_view(),
{
    BrowserSettings {
        item_size: 32,
        layout: BrowserLayout::List,
        preview_enabled: default_preview_enabled(),
        show_hidden_files: default_show_hidden_files(),
        single_click_opens_folders: default_single_click_opens_folders(),
        terminal_command: default_terminal_command(),
        sidebar_width: default_sidebar_width(),
        icon_theme: default_icon_theme(),
        thumbnail_location: default_thumbnail_location(),
        file_context_menu_items: default_file_context_menu_items(),
        folder_context_menu_items: default_folder_context_menu_items(),
        quick_toolbar_items: default_quick_toolbar_items(),
        sort_order: default_entry_sort_order(),
        keyboard_shortcuts: default_keyboard_shortcuts(),
        legacy_context_menu_items: None,
    }
}

fn sidebar_location(label: &str, path: &str, home: Option<&str>) -> (res: SidebarLocation)
    ensures
        res.deep_view() == (SidebarLocationView {
            label: label@,
            path: expand_home_spec(path@, opt_view(home)),
        }),
{
    SidebarLocation { label: message(label), path: expand_home_path(path, home) }
}

/// The default sidebar, with `~/` resolved against `home`.
pub fn default_sidebar_locations(home: Option<&str>) -> (res: Vec<SidebarLocation>)
    ensures
        res.deep_view() == default_sidebar_view(opt_view(home)),
{
    let res = vec![
        sidebar_location("Home", "~/", home),
        sidebar_location("Downloads", "~/Downloads", home),
        sidebar_location("Pictures", "~/Pictures", home),
    ];
    assert(res.deep_view() =~= default_sidebar_view(opt_view(home)));
    res
}

/// Browser settings with the legacy single context menu list, if any,
/// taking the place of both menus.
pub open spec fn legacy_applied(b: BrowserSettingsView) -> BrowserSettingsView {
    match b.legacy_context_menu_items {
        Some(items) => BrowserSettingsView {
            file_context_menu_items: items,
            folder_context_menu_items: items,
            legacy_context_menu_items: None,
            ..b
        },
        None => b,
    }
}

impl BrowserSettings {
    /// Uses the legacy `context_menu_items` list, if it was read, for both
    /// the file and the folder menu.
    pub fn apply_legacy_context_menu_items(&mut self)
        ensures
            final(self).deep_view() == legacy_applied(old(self).deep_view()),
    {
        let legacy = self.legacy_context_menu_items.take();
        match legacy {
            Some(items) => {
                self.file_context_menu_items = copy_vec(&items);
                self.folder_context_menu_items = items;
            },
            None => {},
        }
    }
}

} // verus!

verus! {

/// How a character of a profile name appears in its file name: ASCII
/// letters and digits, `-` and `_` are kept (letters lowercased); any other
/// character becomes `-`.
pub open spec fn slug_char(c: char) -> char {
    if ('a' <= c <= 'z') || ('0' <= c <= '9') || c == '-' || c == '_' {
        c
    } else if 'A' <= c <= 'Z' {
        ((c as u32) + 32) as char
    } else {
        '-'
    }
}

/// The file name stem derived from a profile name.
pub open spec fn slug_spec(name: Seq<char>) -> Seq<char> {
    strip_both(name.map_values(|c: char| slug_char(c)), CharClass::Exactly('-'))
}

pub open spec fn profile_filename_spec(name: Seq<char>) -> Result<Seq<char>, Seq<char>> {
    if slug_spec(name).len() == 0 {
        Err("Profile name must contain a letter or number"@)
    } else {
        Ok(slug_spec(name) + ".toml"@)
    }
}

fn slug_of(c: char) -> (res: char)
    ensures
        res == slug_char(c),
{
    if ('a' <= c && c <= 'z') || ('0' <= c && c <= '9') || c == '-' || c == '_' {
        c
    } else if 'A' <= c && c <= 'Z' {
        ((c as u8) + 32) as char
    } else {
        '-'
    }
}

/// The file name of a profile with the given name.
pub fn profile_filename(name: &str) -> (res: Result<String, String>)
    ensures
        match (res, profile_filename_spec(name@)) {
            (Ok(f), Ok(expected)) => f@ == expected,
            (Err(e), Err(expected)) => e@ == expected,
            _ => false,
        },
{
    let chars = chars_of(name);
    let mut mapped: Vec<char> = Vec::new();
    let mut i: usize = 0;
    while i < chars.len()
        invariant
            i <= chars@.len(),
            mapped@ == chars@.subrange(0, i as int).map_values(|c: char| slug_char(c)),
        decreases chars@.len() - i,
    {
        mapped.push(slug_of(chars[i]));
        i = i + 1;
        assert(mapped@ =~= chars@.subrange(0, i as int).map_values(|c: char| slug_char(c)));
    }
    assert(chars@.subrange(0, chars@.len() as int) =~= chars@);
    let mut slug = trim_class(&mapped, CharClass::Exactly('-'));
    if slug.len() == 0 {
        return Err(message("Profile name must contain a letter or number"));
    }
    extend_str(&mut slug, ".toml");
    Ok(string_from_chars(&slug))
}

/// The name of a profile whose file does not name it: the file stem.
pub open spec fn profile_name_spec(path: Seq<char>) -> Seq<char> {
    match file_stem_spec(path) {
        Some(stem) => stem,
        None => "Unnamed profile"@,
    }
}

/// The name of a profile whose file does not name it.
pub fn profile_name_from_path(path: &str) -> (res: String)
    ensures
        res@ == profile_name_spec(path@),
{
    let chars = chars_of(path);
    match file_stem_chars(&chars) {
        Some(stem) => string_from_chars(&stem),
        None => message("Unnamed profile"),
    }
}

/// One step of the 64-bit FNV-1a hash.
pub open spec fn fnv_step(hash: u64, byte: u8) -> u64 {
    (((hash ^ (byte as u64)) as nat * 0x100000001b3nat) % 0x10000000000000000nat) as u64
}

/// The 64-bit FNV-1a hash of a byte string.
pub open spec fn fnv1a(bytes: Seq<u8>) -> u64
    decreases bytes.len(),
{
    if bytes.len() == 0 {
        0xcbf29ce484222325u64
    } else {
        fnv_step(fnv1a(bytes.drop_last()), bytes.last())
    }
}

/// The 64-bit FNV-1a hash of a path's UTF-8 bytes.
pub fn path_hash(path: &str) -> (res: u64)
    ensures
        res == fnv1a(vstd::utf8::encode_utf8(path@)),
{
    let bytes = path.as_bytes();
    let mut hash: u64 = 0xcbf29ce484222325;
    let mut i: usize = 0;
    while i < bytes.len()
        invariant
            i <= bytes@.len(),
            bytes@ == vstd::utf8::encode_utf8(path@),
            hash == fnv1a(bytes@.subrange(0, i as int)),
        decreases bytes@.len() - i,
    {
        let ghost prefix = bytes@.subrange(0, i + 1);
        assert(prefix.drop_last() =~= bytes@.subrange(0, i as int));
        hash = (hash ^ (bytes[i] as u64)).wrapping_mul(0x100000001b3);
        i = i + 1;
    }
    assert(bytes@.subrange(0, bytes@.len() as int) =~= bytes@);
    hash
}

/// A profile file together with where it is to be written.
pub struct ProfileWrite {
    pub path: String,
    pub file: ProfileFile,
}

/// A state file together with where it is to be written.
pub struct StateWrite {
    pub path: String,
    pub state: StateFile,
}

/// Where profiles and the state file live.
#[derive(Debug, Clone)]
pub struct ConfigStore {
    user_config_dir: String,
    search_paths: Vec<String>,
}

pub struct ConfigStoreView {
    pub user_config_dir: Seq<char>,
    pub search_paths: Seq<Seq<char>>,
}

impl DeepView for ConfigStore {
    type V = ConfigStoreView;

    closed spec fn deep_view(&self) -> ConfigStoreView {
        ConfigStoreView {
            user_config_dir: self.user_config_dir@,
            search_paths: self.search_paths.deep_view(),
        }
    }
}

/// The directory of the user's own profiles.
pub open spec fn user_profiles_dir_spec(store: ConfigStoreView) -> Seq<char> {
    join_spec(store.user_config_dir, "profiles"@)
}

/// Where an editable copy of a read-only profile is kept: in the user's
/// profiles directory, named after the source's stem and path hash.
pub open spec fn overlay_path_spec(store: ConfigStoreView, source: Seq<char>) -> Seq<char> {
    let stem = match file_stem_spec(source) {
        Some(s) => s,
        None => "profile"@,
    };
    join_spec(
        user_profiles_dir_spec(store),
        stem + "-override-"@ + radix_digits(fnv1a(vstd::utf8::encode_utf8(source)) as nat, 16)
            + ".toml"@,
    )
}

impl ConfigStore {
    /// A store for the user's configuration directory and the system's
    /// configuration directories, searched in that order.
    pub fn with_paths(user_config_dir: String, system_config_dirs: Vec<String>) -> (res: Self)
        ensures
            res.deep_view().user_config_dir == user_config_dir@,
            res.deep_view().search_paths.len() == system_config_dirs@.len() + 1,
            res.deep_view().search_paths[0] == join_spec(user_config_dir@, "profiles"@),
            forall|i: int|
                0 <= i < system_config_dirs@.len() ==> res.deep_view().search_paths[i + 1]
                    == join_spec(system_config_dirs@[i]@, "profiles"@),
    {
        let mut search_paths: Vec<String> = Vec::new();
        search_paths.push(join(user_config_dir.as_str(), "profiles"));
        let mut i: usize = 0;
        while i < system_config_dirs.len()
            invariant
                i <= system_config_dirs@.len(),
                search_paths@.len() == i + 1,
                search_paths@[0]@ == join_spec(user_config_dir@, "profiles"@),
                forall|k: int|
                    0 <= k < i ==> search_paths@[k + 1]@ == join_spec(
                        system_config_dirs@[k]@,
                        "profiles"@,
                    ),
            decreases system_config_dirs@.len() - i,
        {
            search_paths.push(join(system_config_dirs[i].as_str(), "profiles"));
            i = i + 1;
        }
        ConfigStore { user_config_dir, search_paths }
    }

    /// The store for the values of `XDG_CONFIG_HOME`, `HOME` and
    /// `XDG_CONFIG_DIRS`: the user's `iron-file` folder under the
    /// configuration home (else `~/.config`, else `.config`), and the
    /// `iron-file` folder under each configuration folder (else `/etc/xdg`).
    pub fn from_environment_values(
        config_home: Option<String>,
        home: Option<String>,
        config_dirs: Option<String>,
    ) -> (res: Self)
        ensures
            res.deep_view().user_config_dir == join_spec(
                match config_home {
                    Some(c) => c@,
                    None => match home {
                        Some(h) => join_spec(h@, ".config"@),
                        None => ".config"@,
                    },
                },
                "iron-file"@,
            ),
            ({
                let system = match config_dirs {
                    Some(d) => crate::text::split_spec(d@, ':'),
                    None => seq!["/etc/xdg"@],
                };
                &&& res.deep_view().search_paths.len() == system.len() + 1
                &&& res.deep_view().search_paths[0] == join_spec(res.deep_view().user_config_dir, "profiles"@)
                &&& forall|i: int|
                    0 <= i < system.len() ==> res.deep_view().search_paths[i + 1] == join_spec(
                        join_spec(#[trigger] system[i], "iron-file"@),
                        "profiles"@,
                    )
            }),
    {
        let base = match config_home {
            Some(c) => c,
            None => match home {
                Some(h) => join(h.as_str(), ".config"),
                None => message(".config"),
            },
        };
        let user = join(base.as_str(), "iron-file");
        let dirs = match config_dirs {
            Some(d) => crate::text::split(d.as_str(), ':'),
            None => vec![message("/etc/xdg")],
        };
        let ghost dv = dirs.deep_view();
        assert(dv =~= match config_dirs {
            Some(d) => crate::text::split_spec(d@, ':'),
            None => seq!["/etc/xdg"@],
        });
        let mut system: Vec<String> = Vec::new();
        let mut i: usize = 0;
        while i < dirs.len()
            invariant
                dv == dirs.deep_view(),
                i <= dv.len(),
                system@.len() == i,
                forall|k: int| 0 <= k < i ==> #[trigger] system@[k]@ == join_spec(dv[k], "iron-file"@),
            decreases dv.len() - i,
        {
            assert(dirs@[i as int]@ == dv[i as int]);
            system.push(join(dirs[i].as_str(), "iron-file"));
            i = i + 1;
        }
        let ghost sv = system@;
        let store = Self::with_paths(user, system);
        assert forall|k: int| 0 <= k < dv.len() implies store.deep_view().search_paths[k + 1]
            == join_spec(join_spec(#[trigger] dv[k], "iron-file"@), "profiles"@) by {
            assert(sv[k]@ == join_spec(dv[k], "iron-file"@));
        }
        store
    }

    /// The directories searched for profiles, the user's own first.
    pub fn search_paths(&self) -> (res: &[String])
        ensures
            res.deep_view() == self.deep_view().search_paths,
    {
        self.search_paths.as_slice()
    }

    /// The user's configuration directory.
    pub fn user_config_dir(&self) -> (res: &str)
        ensures
            res@ == self.deep_view().user_config_dir,
    {
        self.user_config_dir.as_str()
    }

    /// The directory of the user's own profiles.
    pub fn user_profiles_dir(&self) -> (res: String)
        ensures
            res@ == user_profiles_dir_spec(self.deep_view()),
    {
        join(self.user_config_dir.as_str(), "profiles")
    }

    /// Where the state file lives.
    pub fn state_path(&self) -> (res: String)
        ensures
            res@ == join_spec(self.deep_view().user_config_dir, "config.toml"@),
    {
        join(self.user_config_dir.as_str(), "config.toml")
    }

    /// Where an editable copy of the read-only profile at `source` is kept.
    pub fn overlay_path(&self, source: &str) -> (res: String)
        ensures
            res@ == overlay_path_spec(self.deep_view(), source@),
    {
        let source_chars = chars_of(source);
        let mut name: Vec<char> = match file_stem_chars(&source_chars) {
            Some(stem) => stem,
            None => chars_of("profile"),
        };
        extend_str(&mut name, "-override-");
        let hex = lower_hex(path_hash(source));
        extend_chars(&mut name, &hex);
        extend_str(&mut name, ".toml");
        let dir = self.user_profiles_dir();
        join(dir.as_str(), string_from_chars(&name).as_str())
    }
}

} // verus!

verus! {

pub open spec fn expand_location(l: SidebarLocationView, home: Option<Seq<char>>) -> SidebarLocationView {
    SidebarLocationView { label: l.label, path: expand_home_spec(l.path, home) }
}

/// A profile file as it is used once read: `~/` resolved in the base
/// profile, the sidebar paths and the thumbnail location, and the legacy
/// context menu list applied.
pub open spec fn prepared_file(f: ProfileFileView, home: Option<Seq<char>>) -> ProfileFileView {
    ProfileFileView {
        name: f.name,
        color_mode: f.color_mode,
        sidebar_locations: match f.sidebar_locations {
            Some(ls) => Some(ls.map_values(|l: SidebarLocationView| expand_location(l, home))),
            None => None,
        },
        theme: f.theme,
        browser: match f.browser {
            Some(b) => Some(
                legacy_applied(
                    BrowserSettingsView {
                        thumbnail_location: expand_home_spec(b.thumbnail_location, home),
                        ..b
                    },
                ),
            ),
            None => None,
        },
        base_profile: match f.base_profile {
            Some(p) => Some(expand_home_spec(p, home)),
            None => None,
        },
    }
}

/// The profile read from the file at `path`: each setting comes from the
/// file, else from the inherited base profile, else from the defaults.
pub open spec fn resolved_profile(
    path: Seq<char>,
    raw: ProfileFileView,
    inherited: Option<ProfileView>,
    read_only: bool,
    home: Option<Seq<char>>,
) -> ProfileView {
    let f = prepared_file(raw, home);
    ProfileView {
        path: path,
        name: match f.name {
            Some(n) => n,
            None => profile_name_spec(path),
        },
        color_mode: match f.color_mode {
            Some(c) => c,
            None => match inherited {
                Some(p) => p.color_mode,
                None => ColorMode::System,
            },
        },
        sidebar_locations: match f.sidebar_locations {
            Some(l) => l,
            None => match inherited {
                Some(p) => p.sidebar_locations,
                None => default_sidebar_view(home),
            },
        },
        theme: match f.theme {
            Some(t) => t,
            None => match inherited {
                Some(p) => p.theme,
                None => default_theme_view(),
            },
        },
        browser: match f.browser {
            Some(b) => b,
            None => match inherited {
                Some(p) => p.browser,
                None => default_browser_view(),
            },
        },
        read_only: read_only,
        base_profile: f.base_profile,
    }
}

fn expand_locations(locations: Vec<SidebarLocation>, home: Option<&str>) -> (res: Vec<
    SidebarLocation,
>)
    ensures
        res.deep_view() == locations.deep_view().map_values(
            |l: SidebarLocationView| expand_location(l, opt_view(home)),
        ),
{
    let mut res: Vec<SidebarLocation> = Vec::new();
    let mut i: usize = 0;
    while i < locations.len()
        invariant
            i <= locations@.len(),
            res@.len() == i,
            forall|k: int|
                0 <= k < i ==> #[trigger] res@[k].deep_view() == expand_location(
                    locations@[k].deep_view(),
                    opt_view(home),
                ),
        decreases locations@.len() - i,
    {
        let location = &locations[i];
        res.push(
            SidebarLocation {
                label: location.label.clone(),
                path: expand_home_path(location.path.as_str(), home),
            },
        );
        i = i + 1;
    }
    assert(res.deep_view() =~= locations.deep_view().map_values(
        |l: SidebarLocationView| expand_location(l, opt_view(home)),
    ));
    res
}

/// Resolves `~/` and applies the legacy context menu list in a profile
/// file, as is done right after reading it.
pub fn prepare_profile_file(file: ProfileFile, home: Option<&str>) -> (res: ProfileFile)
    ensures
        res.deep_view() == prepared_file(file.deep_view(), opt_view(home)),
{
    let ProfileFile { name, color_mode, sidebar_locations, theme, browser, base_profile } = file;
    let base_profile = match base_profile {
        Some(p) => Some(expand_home_path(p.as_str(), home)),
        None => None,
    };
    let sidebar_locations = match sidebar_locations {
        Some(ls) => Some(expand_locations(ls, home)),
        None => None,
    };
    let browser = match browser {
        Some(b) => {
            let mut b = b;
            b.thumbnail_location = expand_home_path(b.thumbnail_location.as_str(), home);
            b.apply_legacy_context_menu_items();
            Some(b)
        },
        None => None,
    };
    ProfileFile { name, color_mode, sidebar_locations, theme, browser, base_profile }
}

/// The base profile that a profile file inherits from, with `~/` resolved.
pub fn base_profile_path(file: &ProfileFile, home: Option<&str>) -> (res: Option<String>)
    ensures
        res.deep_view() == prepared_file(file.deep_view(), opt_view(home)).base_profile,
{
    match &file.base_profile {
        Some(p) => Some(expand_home_path(p.as_str(), home)),
        None => None,
    }
}

/// The profile read from the file at `path`, given the file's contents,
/// the profile it inherits from (read first), whether the file is read
/// only, and the home directory.
pub fn resolve_profile(
    path: &str,
    file: ProfileFile,
    inherited: Option<Profile>,
    read_only: bool,
    home: Option<&str>,
) -> (res: Profile)
    ensures
        res.deep_view() == resolved_profile(
            path@,
            file.deep_view(),
            inherited.deep_view(),
            read_only,
            opt_view(home),
        ),
{
    let prepared = prepare_profile_file(file, home);
    let ProfileFile { name, color_mode, sidebar_locations, theme, browser, base_profile } =
        prepared;
    let (inherited_color, inherited_locations, inherited_theme, inherited_browser) =
        match inherited {
        Some(p) => (Some(p.color_mode), Some(p.sidebar_locations), Some(p.theme), Some(p.browser)),
        None => (None, None, None, None),
    };
    let color_mode = match color_mode {
        Some(c) => c,
        None => match inherited_color {
            Some(c) => c,
            None => ColorMode::System,
        },
    };
    let sidebar_locations = match sidebar_locations {
        Some(l) => l,
        None => match inherited_locations {
            Some(l) => l,
            None => default_sidebar_locations(home),
        },
    };
    let theme = match theme {
        Some(t) => t,
        None => match inherited_theme {
            Some(t) => t,
            None => default_theme_settings(),
        },
    };
    let browser = match browser {
        Some(b) => b,
        None => match inherited_browser {
            Some(b) => b,
            None => default_browser_settings(),
        },
    };
    let name = match name {
        Some(n) => n,
        None => profile_name_from_path(path),
    };
    Profile {
        path: string_from_chars(&chars_of(path)),
        name,
        color_mode,
        sidebar_locations,
        theme,
        browser,
        read_only,
        base_profile,
    }
}

} // verus!

verus! {

/// The file of an overlay for `profile`: its name, the one changed part,
/// and the source as the base profile.
pub open spec fn overlay_file(
    profile: ProfileView,
    color_mode: Option<ColorMode>,
    sidebar_locations: Option<Seq<SidebarLocationView>>,
    theme: Option<ThemeSettingsView>,
    browser: Option<BrowserSettingsView>,
) -> ProfileFileView {
    ProfileFileView {
        name: Some(profile.name),
        color_mode: color_mode,
        sidebar_locations: sidebar_locations,
        theme: theme,
        browser: browser,
        base_profile: Some(profile.path),
    }
}

/// A profile file as it is written: the legacy `context_menu_items` list
/// is never written, so it is first used for both menus, as reading does.
pub open spec fn stored_file(f: ProfileFileView) -> ProfileFileView {
    ProfileFileView {
        browser: match f.browser {
            Some(b) => Some(legacy_applied(b)),
            None => None,
        },
        ..f
    }
}

/// A file as written holds no legacy list, so a writer that leaves that
/// list out loses nothing; writing it again changes nothing; and it reads
/// back as the profile the file it was made from reads as.
pub proof fn lemma_stored_file(
    f: ProfileFileView,
    path: Seq<char>,
    inherited: Option<ProfileView>,
    read_only: bool,
    home: Option<Seq<char>>,
)
    ensures
        stored_file(f).browser matches Some(b) ==> b.legacy_context_menu_items is None,
        stored_file(stored_file(f)) == stored_file(f),
        resolved_profile(path, stored_file(f), inherited, read_only, home) == resolved_profile(
            path,
            f,
            inherited,
            read_only,
            home,
        ),
{
    assert(prepared_file(stored_file(f), home) == prepared_file(f, home));
}

/// Where the changes to `profile` are written: the profile's own file, or
/// for a read-only profile its overlay in the user's profiles directory.
pub open spec fn save_path_spec(store: ConfigStoreView, profile: ProfileView) -> Seq<char> {
    if profile.read_only {
        overlay_path_spec(store, profile.path)
    } else {
        profile.path
    }
}

/// The message for a profile name that is already taken.
pub open spec fn profile_exists_message_spec(name: Seq<char>) -> Seq<char> {
    "A profile named "@ + name + " already exists"@
}

/// What `create_profile` writes for a requested name.
pub open spec fn created_file(name: Seq<char>, home: Option<Seq<char>>) -> ProfileFileView {
    ProfileFileView {
        name: Some(crate::text::trim_spec(name)),
        color_mode: Some(ColorMode::System),
        sidebar_locations: Some(default_sidebar_view(home)),
        theme: Some(default_theme_view()),
        browser: Some(default_browser_view()),
        base_profile: None,
    }
}

fn copy_string(s: &String) -> (res: String)
    ensures
        res@ == s@,
{
    s.clone()
}

impl ConfigStore {
    /// The profile file to create for a new profile named `name` (trimmed),
    /// in the user's profiles directory; `existing` are the paths that exist
    /// there now, and a profile whose file already exists is refused.
    pub fn create_profile(&self, name: &str, home: Option<&str>, existing: &Vec<String>) -> (res: Result<
        ProfileWrite,
        String,
    >)
        ensures
            crate::text::trim_spec(name@).len() == 0 ==> (res matches Err(e) && e@
                == "Profile name cannot be empty"@),
            crate::text::trim_spec(name@).len() > 0 ==> match profile_filename_spec(
                crate::text::trim_spec(name@),
            ) {
                Err(expected) => res matches Err(e) && e@ == expected,
                Ok(filename) => {
                    let path = join_spec(user_profiles_dir_spec(self.deep_view()), filename);
                    if exists|i: int|
                        0 <= i < existing@.len() && crate::paths::same_path(#[trigger] existing@[i]@, path) {
                        res matches Err(e) && e@ == profile_exists_message_spec(
                            crate::text::trim_spec(name@),
                        )
                    } else {
                        res matches Ok(w) && w.path@ == path && w.file.deep_view() == created_file(
                            name@,
                            opt_view(home),
                        )
                    }
                },
            },
    {
        let trimmed = crate::text::trim(name);
        if trimmed.as_str().is_empty() {
            return Err(message("Profile name cannot be empty"));
        }
        let filename = match profile_filename(trimmed.as_str()) {
            Ok(f) => f,
            Err(e) => {
                return Err(e);
            },
        };
        let dir = self.user_profiles_dir();
        let path = join(dir.as_str(), filename.as_str());
        if crate::paths::contains_same_path(existing, path.as_str()) {
            return Err(Self::profile_exists_message(trimmed.as_str()));
        }
        let file = ProfileFile {
            name: Some(trimmed),
            color_mode: Some(ColorMode::System),
            sidebar_locations: Some(default_sidebar_locations(home)),
            theme: Some(default_theme_settings()),
            browser: Some(default_browser_settings()),
            base_profile: None,
        };
        Ok(ProfileWrite { path, file })
    }

    /// The message for a profile name that is already taken.
    pub fn profile_exists_message(name: &str) -> (res: String)
        ensures
            res@ == profile_exists_message_spec(name@),
    {
        let mut text = chars_of("A profile named ");
        extend_str(&mut text, name);
        extend_str(&mut text, " already exists");
        string_from_chars(&text)
    }

    /// The state file that makes `profile` the active profile, keeping the
    /// rest of the state file as read now (`current`, if there is one).
    pub fn set_active_profile(&self, profile: &str, current: Option<StateFile>) -> (res: StateWrite)
        ensures
            res.path@ == join_spec(self.deep_view().user_config_dir, "config.toml"@),
            res.state.deep_view() == active_state(profile@, current.deep_view()),
    {
        let last_picker_directory = match current {
            Some(s) => s.last_picker_directory,
            None => None,
        };
        StateWrite {
            path: self.state_path(),
            state: StateFile {
                active_profile: Some(string_from_chars(&chars_of(profile))),
                last_picker_directory,
            },
        }
    }

    /// The state file that remembers the folder a picker was showing when
    /// it closed, keeping the rest of the state file as read now.
    pub fn remember_picker_directory(&self, directory: &str, current: Option<StateFile>) -> (res:
        StateWrite)
        ensures
            res.path@ == join_spec(self.deep_view().user_config_dir, "config.toml"@),
            res.state.deep_view() == remembered_state(directory@, current.deep_view()),
    {
        let active_profile = match current {
            Some(s) => s.active_profile,
            None => None,
        };
        StateWrite {
            path: self.state_path(),
            state: StateFile {
                active_profile,
                last_picker_directory: Some(string_from_chars(&chars_of(directory))),
            },
        }
    }

    /// Where changes to `profile` are written.
    pub fn save_path(&self, profile: &Profile) -> (res: String)
        ensures
            res@ == save_path_spec(self.deep_view(), profile.deep_view()),
    {
        if profile.read_only {
            self.overlay_path(profile.path.as_str())
        } else {
            copy_string(&profile.path)
        }
    }

    fn overlay_base(profile: &Profile) -> (res: ProfileFile)
        ensures
            res.deep_view() == overlay_file(profile.deep_view(), None, None, None, None),
    {
        ProfileFile {
            name: Some(copy_string(&profile.name)),
            color_mode: None,
            sidebar_locations: None,
            theme: None,
            browser: None,
            base_profile: Some(copy_string(&profile.path)),
        }
    }

    /// The profile made when the browser starts and finds none: one named
    /// `Default`, as `create_profile` makes it (nothing when that fails).
    pub fn first_run_profile(
        &self,
        profiles: &Vec<Profile>,
        home: Option<&str>,
        existing: &Vec<String>,
    ) -> (res: Option<ProfileWrite>)
        ensures
            profiles@.len() > 0 ==> res is None,
            profiles@.len() == 0 ==> match profile_filename_spec(crate::text::trim_spec("Default"@)) {
                Ok(filename) => {
                    let path = join_spec(user_profiles_dir_spec(self.deep_view()), filename);
                    crate::text::trim_spec("Default"@).len() > 0 ==> if exists|i: int|
                        0 <= i < existing@.len() && crate::paths::same_path(#[trigger] existing@[i]@, path) {
                        res is None
                    } else {
                        res matches Some(w) && w.path@ == path && w.file.deep_view() == created_file(
                            "Default"@,
                            opt_view(home),
                        )
                    }
                },
                Err(_) => res is None,
            },
            profiles@.len() == 0 && crate::text::trim_spec("Default"@).len() == 0 ==> res is None,
    {
        if profiles.len() > 0 {
            return None;
        }
        match self.create_profile("Default", home, existing) {
            Ok(w) => Some(w),
            Err(_) => None,
        }
    }

    /// The file to write, with the legacy menu list used for both menus.
    fn stored(file: ProfileFile) -> (res: ProfileFile)
        ensures
            res.deep_view() == stored_file(file.deep_view()),
    {
        let mut file = file;
        match file.browser {
            Some(mut b) => {
                b.apply_legacy_context_menu_items();
                file.browser = Some(b);
            },
            None => {},
        }
        file
    }

    /// The file that saves a new colour mode for `profile`. `current` is
    /// the profile's file as read now; a read-only profile needs none.
    pub fn save_color_mode(
        &self,
        profile: &Profile,
        color_mode: ColorMode,
        current: Option<ProfileFile>,
    ) -> (res: ProfileWrite)
        requires
            !profile.read_only ==> current is Some,
        ensures
            res.path@ == save_path_spec(self.deep_view(), profile.deep_view()),
            profile.read_only ==> res.file.deep_view() == stored_file(overlay_file(
                profile.deep_view(),
                Some(color_mode),
                None,
                None,
                None,
            )),
            !profile.read_only ==> res.file.deep_view() == stored_file((ProfileFileView {
                color_mode: Some(color_mode),
                ..current.unwrap().deep_view()
            })),
    {
        let path = self.save_path(profile);
        let mut file = if profile.read_only {
            Self::overlay_base(profile)
        } else {
            current.unwrap()
        };
        file.color_mode = Some(color_mode);
        ProfileWrite { path, file: Self::stored(file) }
    }

    /// The file that saves new theme settings for `profile`.
    pub fn save_theme_settings(
        &self,
        profile: &Profile,
        theme: ThemeSettings,
        current: Option<ProfileFile>,
    ) -> (res: ProfileWrite)
        requires
            !profile.read_only ==> current is Some,
        ensures
            res.path@ == save_path_spec(self.deep_view(), profile.deep_view()),
            profile.read_only ==> res.file.deep_view() == stored_file(overlay_file(
                profile.deep_view(),
                None,
                None,
                Some(theme.deep_view()),
                None,
            )),
            !profile.read_only ==> res.file.deep_view() == stored_file((ProfileFileView {
                theme: Some(theme.deep_view()),
                ..current.unwrap().deep_view()
            })),
    {
        let path = self.save_path(profile);
        let mut file = if profile.read_only {
            Self::overlay_base(profile)
        } else {
            current.unwrap()
        };
        file.theme = Some(theme);
        ProfileWrite { path, file: Self::stored(file) }
    }

    /// The file that saves a new sidebar for `profile`, in the given order.
    pub fn save_sidebar_locations(
        &self,
        profile: &Profile,
        sidebar_locations: Vec<SidebarLocation>,
        current: Option<ProfileFile>,
    ) -> (res: ProfileWrite)
        requires
            !profile.read_only ==> current is Some,
        ensures
            res.path@ == save_path_spec(self.deep_view(), profile.deep_view()),
            profile.read_only ==> res.file.deep_view() == stored_file(overlay_file(
                profile.deep_view(),
                None,
                Some(sidebar_locations.deep_view()),
                None,
                None,
            )),
            !profile.read_only ==> res.file.deep_view() == stored_file((ProfileFileView {
                sidebar_locations: Some(sidebar_locations.deep_view()),
                ..current.unwrap().deep_view()
            })),
    {
        let path = self.save_path(profile);
        let mut file = if profile.read_only {
            Self::overlay_base(profile)
        } else {
            current.unwrap()
        };
        file.sidebar_locations = Some(sidebar_locations);
        ProfileWrite { path, file: Self::stored(file) }
    }

    /// The file that saves new browser settings for `profile`.
    pub fn save_browser_settings(
        &self,
        profile: &Profile,
        browser: BrowserSettings,
        current: Option<ProfileFile>,
    ) -> (res: ProfileWrite)
        requires
            !profile.read_only ==> current is Some,
        ensures
            res.path@ == save_path_spec(self.deep_view(), profile.deep_view()),
            profile.read_only ==> res.file.deep_view() == stored_file(overlay_file(
                profile.deep_view(),
                None,
                None,
                None,
                Some(browser.deep_view()),
            )),
            !profile.read_only ==> res.file.deep_view() == stored_file((ProfileFileView {
                browser: Some(browser.deep_view()),
                ..current.unwrap().deep_view()
            })),
    {
        let path = self.save_path(profile);
        let mut file = if profile.read_only {
            Self::overlay_base(profile)
        } else {
            current.unwrap()
        };
        file.browser = Some(browser);
        ProfileWrite { path, file: Self::stored(file) }
    }

    /// The file that resets `profile` to the defaults: colour mode,
    /// sidebar, theme and browser settings.
    pub fn reset_profile(
        &self,
        profile: &Profile,
        current: Option<ProfileFile>,
        home: Option<&str>,
    ) -> (res: ProfileWrite)
        requires
            !profile.read_only ==> current is Some,
        ensures
            res.path@ == save_path_spec(self.deep_view(), profile.deep_view()),
            profile.read_only ==> res.file.deep_view() == overlay_file(
                profile.deep_view(),
                Some(ColorMode::System),
                Some(default_sidebar_view(opt_view(home))),
                Some(default_theme_view()),
                Some(default_browser_view()),
            ),
            !profile.read_only ==> res.file.deep_view() == (ProfileFileView {
                color_mode: Some(ColorMode::System),
                sidebar_locations: Some(default_sidebar_view(opt_view(home))),
                theme: Some(default_theme_view()),
                browser: Some(default_browser_view()),
                ..current.unwrap().deep_view()
            }),
    {
        let path = self.save_path(profile);
        let mut file = if profile.read_only {
            Self::overlay_base(profile)
        } else {
            current.unwrap()
        };
        file.color_mode = Some(ColorMode::default());
        file.sidebar_locations = Some(default_sidebar_locations(home));
        file.theme = Some(default_theme_settings());
        file.browser = Some(default_browser_settings());
        ProfileWrite { path, file }
    }
}

} // verus!

verus! {

/// Saving one setting of a writable profile changes that setting, and
/// nothing else, in the profile read back from the file.
pub proof fn lemma_saved_setting_reads_back(
    path: Seq<char>,
    current: ProfileFileView,
    inherited: Option<ProfileView>,
    read_only: bool,
    home: Option<Seq<char>>,
    color_mode: ColorMode,
    theme: ThemeSettingsView,
)
    ensures
        ({
            let before = resolved_profile(path, current, inherited, read_only, home);
            let after = resolved_profile(
                path,
                stored_file(ProfileFileView { color_mode: Some(color_mode), ..current }),
                inherited,
                read_only,
                home,
            );
            after == ProfileView { color_mode: color_mode, ..before }
        }),
        ({
            let before = resolved_profile(path, current, inherited, read_only, home);
            let after = resolved_profile(
                path,
                stored_file(ProfileFileView { theme: Some(theme), ..current }),
                inherited,
                read_only,
                home,
            );
            after == ProfileView { theme: theme, ..before }
        }),
{
    lemma_stored_file(ProfileFileView { color_mode: Some(color_mode), ..current }, path, inherited, read_only, home);
    lemma_stored_file(ProfileFileView { theme: Some(theme), ..current }, path, inherited, read_only, home);
}

/// Saving sidebar locations or browser settings to a writable profile
/// changes that part, and nothing else, of the profile read back; the
/// part read back is the saved one with `~/` resolved.
pub proof fn lemma_saved_lists_read_back(
    path: Seq<char>,
    current: ProfileFileView,
    inherited: Option<ProfileView>,
    read_only: bool,
    home: Option<Seq<char>>,
    locations: Seq<SidebarLocationView>,
    browser: BrowserSettingsView,
)
    ensures
        ({
            let before = resolved_profile(path, current, inherited, read_only, home);
            let after = resolved_profile(
                path,
                stored_file(ProfileFileView { sidebar_locations: Some(locations), ..current }),
                inherited,
                read_only,
                home,
            );
            after == ProfileView {
                sidebar_locations: locations.map_values(
                    |l: SidebarLocationView| expand_location(l, home),
                ),
                ..before
            }
        }),
        ({
            let before = resolved_profile(path, current, inherited, read_only, home);
            let after = resolved_profile(
                path,
                stored_file(ProfileFileView { browser: Some(browser), ..current }),
                inherited,
                read_only,
                home,
            );
            after == ProfileView {
                browser: legacy_applied(
                    BrowserSettingsView {
                        thumbnail_location: expand_home_spec(browser.thumbnail_location, home),
                        ..browser
                    },
                ),
                ..before
            }
        }),
{
    lemma_stored_file(
        ProfileFileView { sidebar_locations: Some(locations), ..current },
        path,
        inherited,
        read_only,
        home,
    );
    lemma_stored_file(ProfileFileView { browser: Some(browser), ..current }, path, inherited, read_only, home);
}

/// Editing a read-only profile writes an overlay that, read back with the
/// source as its base, has the edited setting and keeps every other
/// setting and the name of the source.
pub proof fn lemma_overlay_reads_back(
    store: ConfigStoreView,
    source: ProfileView,
    color_mode: Option<ColorMode>,
    theme: Option<ThemeSettingsView>,
    home: Option<Seq<char>>,
    read_only: bool,
)
    requires
        source.read_only,
    ensures
        ({
            let overlay = resolved_profile(
                save_path_spec(store, source),
                stored_file(overlay_file(source, color_mode, None, theme, None)),
                Some(source),
                read_only,
                home,
            );
            &&& overlay.path == overlay_path_spec(store, source.path)
            &&& overlay.name == source.name
            &&& overlay.color_mode == match color_mode {
                Some(c) => c,
                None => source.color_mode,
            }
            &&& overlay.theme == match theme {
                Some(t) => t,
                None => source.theme,
            }
            &&& overlay.sidebar_locations == source.sidebar_locations
            &&& overlay.browser == source.browser
            &&& overlay.base_profile == Some(expand_home_spec(source.path, home))
        }),
{
    lemma_stored_file(
        overlay_file(source, color_mode, None, theme, None),
        save_path_spec(store, source),
        Some(source),
        read_only,
        home,
    );
}

/// The file name made for a new profile is a single plain component, so
/// the new profile always lands directly in the user's profiles directory.
pub proof fn lemma_profile_filename_is_plain(name: Seq<char>)
    ensures
        profile_filename_spec(name) matches Ok(f) ==> crate::paths::simple_file_name(f)
            && crate::paths::only_normal_components(f),
{
    let mapped = name.map_values(|c: char| slug_char(c));
    let slug = slug_spec(name);
    lemma_strip_both_keeps_chars(mapped, CharClass::Exactly('-'));
    if slug.len() > 0 {
        let f = slug + ".toml"@;
        assert(forall|k: int| 0 <= k < mapped.len() ==> mapped[k] != '/' && mapped[k] != '.');
        assert(forall|k: int| 0 <= k < slug.len() ==> slug[k] != '/' && slug[k] != '.');
        reveal_strlit(".toml");
        assert(f.len() == slug.len() + 5);
        assert forall|i: int| 0 <= i < f.len() implies f[i] != '/' by {
            if i < slug.len() {
                assert(f[i] == slug[i]);
            } else {
                assert(f[i] == ".toml"@[i - slug.len()]);
            }
        }
        assert forall|i: int| !crate::paths::parent_component_at(f, i) by {
            if crate::paths::parent_component_at(f, i) {
                if i < slug.len() {
                    assert(f[i] == slug[i]);
                } else {
                    assert(f[i + 1] == ".toml"@[i + 1 - slug.len()]);
                }
            }
        }
        assert(f[0] == slug[0]);
        assert(f != seq!['.'] && f != seq!['.', '.']) by {
            assert(f.len() >= 6);
        }
    }
}

proof fn lemma_strip_both_keeps_chars(s: Seq<char>, class: CharClass)
    ensures
        forall|k: int|
            0 <= k < strip_both(s, class).len() ==> exists|j: int|
                0 <= j < s.len() && s[j] == #[trigger] strip_both(s, class)[k],
{
    let d = strip_start_offset(s, class);
    let t = crate::text::strip_start(s, class);
    let e = strip_end_offset(t, class);
    assert forall|k: int| 0 <= k < strip_both(s, class).len() implies exists|j: int|
        0 <= j < s.len() && s[j] == #[trigger] strip_both(s, class)[k] by {
        assert(strip_both(s, class)[k] == t[k]);
        assert(t[k] == s[d + k]);
    }
}

proof fn strip_start_offset(s: Seq<char>, class: CharClass) -> (d: int)
    ensures
        0 <= d <= s.len(),
        crate::text::strip_start(s, class) == s.subrange(d, s.len() as int),
    decreases s.len(),
{
    if s.len() > 0 && crate::text::in_class(class, s[0]) {
        let d1 = strip_start_offset(s.drop_first(), class);
        assert(s.drop_first().subrange(d1, s.len() - 1) =~= s.subrange(d1 + 1, s.len() as int));
        d1 + 1
    } else {
        assert(s.subrange(0, s.len() as int) =~= s);
        0
    }
}

proof fn strip_end_offset(s: Seq<char>, class: CharClass) -> (e: int)
    ensures
        0 <= e <= s.len(),
        crate::text::strip_end(s, class) == s.subrange(0, e),
    decreases s.len(),
{
    if s.len() > 0 && crate::text::in_class(class, s.last()) {
        let e1 = strip_end_offset(s.drop_last(), class);
        assert(s.drop_last().subrange(0, e1) =~= s.subrange(0, e1));
        e1
    } else {
        assert(s.subrange(0, s.len() as int) =~= s);
        s.len() as int
    }
}

} // verus!

verus! {

/// Whether a directory entry is a profile file: its extension is `toml`.
pub open spec fn is_profile_path_spec(path: Seq<char>) -> bool {
    path_extension_spec(path) == Some("toml"@)
}

/// The profile files among directory entries, in order.
pub open spec fn profile_paths_in(entries: Seq<Seq<char>>) -> Seq<Seq<char>>
    decreases entries.len(),
{
    if entries.len() == 0 {
        Seq::empty()
    } else {
        let prev = profile_paths_in(entries.drop_last());
        if is_profile_path_spec(entries.last()) {
            prev.push(entries.last())
        } else {
            prev
        }
    }
}

/// Whether a directory entry is a profile file.
pub fn is_profile_path(path: &str) -> (res: bool)
    ensures
        res == is_profile_path_spec(path@),
{
    let chars = chars_of(path);
    match extension_chars(&chars) {
        Some(ext) => {
            let toml = chars_of("toml");
            crate::text::chars_equal(&ext, &toml)
        },
        None => false,
    }
}

/// The profile files to read, given the entries of the search paths in
/// search order: `.toml` files only, each path once, first occurrence kept.
pub fn select_profile_paths(entries: Vec<String>) -> (res: Vec<String>)
    ensures
        res.deep_view() == first_occurrences(profile_paths_in(entries.deep_view())),
{
    let ghost all = entries.deep_view();
    let n = entries.len();
    let mut picked: Vec<String> = Vec::new();
    let mut i: usize = 0;
    while i < n
        invariant
            n == entries@.len(),
            all == entries.deep_view(),
            i <= n,
            picked.deep_view() == profile_paths_in(all.subrange(0, i as int)),
        decreases n - i,
    {
        assert(all.subrange(0, i + 1).drop_last() =~= all.subrange(0, i as int));
        assert(all[i as int] == entries@[i as int]@);
        if is_profile_path(entries[i].as_str()) {
            picked.push(entries[i].clone());
            assert(picked.deep_view() =~= profile_paths_in(all.subrange(0, i as int)).push(
                all[i as int],
            ));
        }
        i = i + 1;
    }
    assert(all.subrange(0, n as int) =~= all);
    unique(picked)
}

/// The sort key of a profile: its lowercase name.
pub open spec fn profile_sort_key(p: ProfileView) -> (u8, Seq<char>) {
    (0, crate::text::lowercase(p.name))
}

/// Sorts profiles by lowercase name, keeping the order of equal names.
pub fn sort_profiles(profiles: Vec<Profile>) -> (res: Vec<Profile>)
    ensures
        is_stable_sort_of(
            res@,
            profiles@,
            profiles.deep_view().map_values(|p: ProfileView| profile_sort_key(p)),
            false,
        ),
{
    let mut keys: Vec<SortKey> = Vec::new();
    let mut i: usize = 0;
    while i < profiles.len()
        invariant
            i <= profiles@.len(),
            keys@.len() == i,
            forall|k: int|
                0 <= k < i ==> #[trigger] keys@[k].deep_view() == profile_sort_key(
                    profiles@[k].deep_view(),
                ),
        decreases profiles@.len() - i,
    {
        keys.push(SortKey { rank: 0, text: lowercase_chars(profiles[i].name.as_str()) });
        i = i + 1;
    }
    assert(keys.deep_view() =~= profiles.deep_view().map_values(
        |p: ProfileView| profile_sort_key(p),
    ));
    stable_sort(profiles, &keys, false)
}

} // verus!

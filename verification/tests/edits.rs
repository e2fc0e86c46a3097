use iron_file::config::{
    default_browser_settings, default_theme_settings, BrowserLayout, ContextMenuBlurKernelSize,
    ContextMenuItem, QuickToolbarItem,
};
use iron_file::edits::{
    chosen_terminal, edited_browser, edited_theme, moved_item, toggled_items, BrowserEdit,
    ThemeEdit,
};

#[test]
fn switching_an_action_on_adds_it_once_at_the_end() {
    let items = vec![ContextMenuItem::Open, ContextMenuItem::Rename];
    assert_eq!(
        toggled_items(items.clone(), ContextMenuItem::Paste, true),
        vec![ContextMenuItem::Open, ContextMenuItem::Rename, ContextMenuItem::Paste]
    );
    assert_eq!(toggled_items(items.clone(), ContextMenuItem::Open, true), items);
}

#[test]
fn switching_an_action_off_removes_it() {
    let items = vec![ContextMenuItem::Open, ContextMenuItem::Rename, ContextMenuItem::Open];
    assert_eq!(
        toggled_items(items, ContextMenuItem::Open, false),
        vec![ContextMenuItem::Rename]
    );
}

#[test]
fn actions_move_one_place_within_the_list() {
    let items = vec![
        QuickToolbarItem::ToggleHiddenFiles,
        QuickToolbarItem::Sort,
        QuickToolbarItem::CompressSelection,
    ];
    assert_eq!(
        moved_item(items.clone(), QuickToolbarItem::Sort, true),
        Some(vec![
            QuickToolbarItem::Sort,
            QuickToolbarItem::ToggleHiddenFiles,
            QuickToolbarItem::CompressSelection,
        ])
    );
    assert_eq!(
        moved_item(items.clone(), QuickToolbarItem::Sort, false),
        Some(vec![
            QuickToolbarItem::ToggleHiddenFiles,
            QuickToolbarItem::CompressSelection,
            QuickToolbarItem::Sort,
        ])
    );
    assert_eq!(moved_item(items.clone(), QuickToolbarItem::ToggleHiddenFiles, true), None);
    assert_eq!(moved_item(items.clone(), QuickToolbarItem::CompressSelection, false), None);
    assert_eq!(moved_item(items, QuickToolbarItem::ExtractSelection, true), None);
}

#[test]
fn moving_up_then_down_restores_the_order() {
    let items = vec![ContextMenuItem::CreateFolder, ContextMenuItem::CreateFile, ContextMenuItem::Open];
    let up = moved_item(items.clone(), ContextMenuItem::Open, true).unwrap();
    assert_eq!(moved_item(up, ContextMenuItem::Open, false), Some(items));
}

#[test]
fn accent_colours_must_be_hex() {
    let theme = default_theme_settings();
    assert_eq!(
        edited_theme(theme.clone(), ThemeEdit::LightAccent("blue".into())),
        Err("Accent color must be a hex color, for example #4f7cac".to_string())
    );
    assert_eq!(
        edited_theme(theme.clone(), ThemeEdit::DarkAccent("#12345g".into())),
        Err("Accent color must be a hex color, for example #4f7cac".to_string())
    );
    let saved = edited_theme(theme.clone(), ThemeEdit::DarkAccent("#4f7cac".into())).unwrap();
    assert_eq!(saved.dark_highlight, "#4f7cac");
    assert_eq!(saved.light_highlight, theme.light_highlight);
}

#[test]
fn blur_strength_and_border_radius_are_capped() {
    let theme = default_theme_settings();
    let saved = edited_theme(theme.clone(), ThemeEdit::ContextMenuBlurStrength(9)).unwrap();
    assert_eq!(saved.context_menu_blur_strength, 5);
    let saved = edited_theme(theme.clone(), ThemeEdit::ContextMenuBlurStrength(3)).unwrap();
    assert_eq!(saved.context_menu_blur_strength, 3);
    let saved = edited_theme(theme.clone(), ThemeEdit::BorderRadius(12)).unwrap();
    assert_eq!(saved.border_radius, 8);
    let saved = edited_theme(theme.clone(), ThemeEdit::BackgroundOpacity(40)).unwrap();
    assert_eq!(saved.background_opacity, 40);
    let saved = edited_theme(
        theme,
        ThemeEdit::ContextMenuBlurKernelSize(ContextMenuBlurKernelSize::Fixed(9)),
    )
    .unwrap();
    assert_eq!(saved.context_menu_blur_kernel_size, ContextMenuBlurKernelSize::Fixed(9));
}

#[test]
fn terminal_choices_select_a_command() {
    let recommended = vec!["foot".to_string(), "kitty".to_string()];
    assert_eq!(chosen_terminal("System default".into(), "foot".into(), &recommended), "default");
    assert_eq!(chosen_terminal("kitty".into(), "foot".into(), &recommended), "kitty");
    assert_eq!(chosen_terminal("Custom command".into(), "foot".into(), &recommended), "");
    assert_eq!(chosen_terminal("Custom command".into(), "default".into(), &recommended), "");
    assert_eq!(
        chosen_terminal("Custom command".into(), "wezterm start".into(), &recommended),
        "wezterm start"
    );
}

#[test]
fn browser_edits_change_one_setting() {
    let browser = default_browser_settings();
    let none: Vec<String> = vec![];
    let hidden = edited_browser(browser.clone(), BrowserEdit::ToggleHiddenFiles, &none).unwrap();
    assert_eq!(hidden.show_hidden_files, !browser.show_hidden_files);
    let layout = edited_browser(browser.clone(), BrowserEdit::Layout(BrowserLayout::Tiles), &none)
        .unwrap();
    assert_eq!(layout.layout, BrowserLayout::Tiles);
    assert_eq!(layout.item_size, browser.item_size);
    let folder = edited_browser(
        browser.clone(),
        BrowserEdit::ContextMenuItemToggled {
            item: ContextMenuItem::OpenTerminal,
            is_directory: true,
            enabled: false,
        },
        &none,
    )
    .unwrap();
    assert!(!folder.folder_context_menu_items.contains(&ContextMenuItem::OpenTerminal));
    assert_eq!(folder.file_context_menu_items, browser.file_context_menu_items);
    let first = browser.folder_context_menu_items[0];
    assert_eq!(
        edited_browser(
            browser,
            BrowserEdit::MoveContextMenuItem { item: first, is_directory: true, move_up: true },
            &none,
        ),
        None
    );
}

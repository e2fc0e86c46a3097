use iron_file::config::{default_browser_settings, ContextMenuItem};
use iron_file::browser::{
    add_sidebar_location, drop_sidebar_location, drop_sidebar_location_at_end, entry_click,
    icon_theme_choices, name_label_lines, remove_sidebar_location, select_entry,
    selected_terminal_choice, selection_move_target, set_keyboard_shortcut, sidebar_icon,
    sort_entries, terminal_choices, truncate_label, ArchiveCompression, ClickDecision, ClickOpen,
    FileEntry, HistoryRequest, NavigationHistory, PickerKind, SelectionDirection, SidebarDrop,
};
use iron_file::config::{
    BrowserLayout, EntrySortOrder, KeyboardShortcut, KeyboardShortcutAction, SidebarLocation,
};

fn strings(values: &[&str]) -> Vec<String> {
    values.iter().map(|value| value.to_string()).collect()
}

fn entry(name: &str, is_directory: bool) -> FileEntry {
    FileEntry {
        name: name.into(),
        path: format!("/tmp/{name}"),
        is_directory,
        thumbnail_path: String::new(),
    }
}

fn location(label: &str, path: &str) -> SidebarLocation {
    SidebarLocation { label: label.into(), path: path.into() }
}

#[test]
fn entries_list_folders_then_files_with_hidden_ones_last() {
    let mut entries = vec![
        entry("b.txt", false),
        entry(".hidden", false),
        entry("Docs", true),
        entry(".config", true),
        entry("a.txt", false),
        entry("apps", true),
    ];
    sort_entries(&mut entries, EntrySortOrder::NameAscending);
    let names: Vec<&str> = entries.iter().map(|e| e.name.as_str()).collect();
    assert_eq!(names, vec!["apps", "Docs", ".config", "a.txt", "b.txt", ".hidden"]);

    sort_entries(&mut entries, EntrySortOrder::NameDescending);
    let names: Vec<&str> = entries.iter().map(|e| e.name.as_str()).collect();
    assert_eq!(names, vec!["Docs", "apps", ".config", "b.txt", "a.txt", ".hidden"]);
}

#[test]
fn long_labels_are_cut_with_an_ellipsis() {
    assert_eq!(truncate_label("abcdefgh", 8), "abcdefgh");
    assert_eq!(truncate_label("abcdefgh", 5), "ab...");
    assert_eq!(truncate_label("abcdefgh", 2), "...");
    assert_eq!(truncate_label("äöüßxyz", 6), "äöü...");
}

#[test]
fn names_are_wrapped_over_lines() {
    assert_eq!(name_label_lines("abcdefgh", 3, 2), strings(&["abc", "..."]));
    assert_eq!(name_label_lines("abcd", 3, 2), strings(&["abc", "d"]));
    assert_eq!(name_label_lines("ab", 0, 2), strings(&[".", ".", "."]));
}

#[test]
fn history_goes_back_and_forward() {
    let mut history = NavigationHistory::new();
    history.record("/a".into(), HistoryRequest::Initial);
    history.record("/b".into(), HistoryRequest::New);
    history.record("/c".into(), HistoryRequest::New);
    assert_eq!(history.navigate(-1), Some(("/b".to_string(), 1)));
    history.record("/b".into(), HistoryRequest::Existing(1));
    assert_eq!(history.navigate(1), Some(("/c".to_string(), 2)));
    history.record("/d".into(), HistoryRequest::New);
    let (entries, index) = history.view_of();
    assert_eq!(entries, strings(&["/a", "/b", "/d"]));
    assert_eq!(index, Some(2));
    assert_eq!(history.navigate(1), None);
}

#[test]
fn reopening_the_current_location_keeps_the_history() {
    let mut history = NavigationHistory::new();
    history.record("/a".into(), HistoryRequest::Initial);
    history.record("/a/".into(), HistoryRequest::New);
    assert_eq!(history.view_of(), (strings(&["/a"]), Some(0)));
}

#[test]
fn sidebar_locations_are_reordered_by_dragging() {
    let locations = vec![location("A", "/a"), location("B", "/b"), location("C", "/c")];
    match drop_sidebar_location(locations.clone(), "/a", "/c") {
        SidebarDrop::Save(moved) => assert_eq!(
            moved,
            vec![location("B", "/b"), location("A", "/a"), location("C", "/c")]
        ),
        _ => panic!("expected a new order"),
    }
    assert!(matches!(drop_sidebar_location(locations.clone(), "/a", "/a/"), SidebarDrop::OpenTarget));
    assert!(matches!(drop_sidebar_location(locations.clone(), "/x", "/a"), SidebarDrop::Keep));
    assert_eq!(
        drop_sidebar_location_at_end(locations.clone(), "/a"),
        Some(vec![location("B", "/b"), location("C", "/c"), location("A", "/a")])
    );
    assert_eq!(drop_sidebar_location_at_end(locations, "/x"), None);
}

#[test]
fn folders_are_pinned_once_and_unpinned() {
    let locations = vec![location("A", "/a")];
    assert_eq!(
        add_sidebar_location(locations.clone(), "/srv/music"),
        Some(vec![location("A", "/a"), location("music", "/srv/music")])
    );
    assert_eq!(add_sidebar_location(locations.clone(), "/a/"), None);
    assert_eq!(add_sidebar_location(vec![], "/"), Some(vec![location("/", "/")]));
    assert_eq!(remove_sidebar_location(locations, "/a/"), vec![]);
}

#[test]
fn arrows_move_by_one_or_by_a_row_of_tiles() {
    assert_eq!(selection_move_target(0, 5, BrowserLayout::List, SelectionDirection::Up, 3), None);
    assert_eq!(selection_move_target(0, 5, BrowserLayout::List, SelectionDirection::Down, 3), Some(1));
    assert_eq!(selection_move_target(1, 5, BrowserLayout::Tiles, SelectionDirection::Down, 3), Some(4));
    assert_eq!(selection_move_target(2, 5, BrowserLayout::Tiles, SelectionDirection::Down, 3), None);
    assert_eq!(selection_move_target(4, 5, BrowserLayout::Tiles, SelectionDirection::Up, 3), Some(1));
    assert_eq!(selection_move_target(4, 5, BrowserLayout::Tiles, SelectionDirection::Left, 3), Some(3));
    assert_eq!(selection_move_target(1, 5, BrowserLayout::Tiles, SelectionDirection::Up, 0), Some(0));
}

#[test]
fn a_shortcut_is_rebound_or_removed() {
    let shortcuts = vec![KeyboardShortcut { action: KeyboardShortcutAction::RenameSelection, key: "F2".into() }];
    assert_eq!(
        set_keyboard_shortcut(shortcuts.clone(), KeyboardShortcutAction::RenameSelection, " R "),
        vec![KeyboardShortcut { action: KeyboardShortcutAction::RenameSelection, key: "R".into() }]
    );
    assert_eq!(set_keyboard_shortcut(shortcuts, KeyboardShortcutAction::RenameSelection, "  "), vec![]);
}

#[test]
fn clicks_select_browse_or_launch() {
    assert_eq!(
        entry_click(None, true, false, false),
        ClickDecision { select: true, open: ClickOpen::Nothing, remember_click: true }
    );
    assert_eq!(
        entry_click(None, true, false, true),
        ClickDecision { select: true, open: ClickOpen::Browse, remember_click: false }
    );
    assert_eq!(
        entry_click(None, false, true, false),
        ClickDecision { select: true, open: ClickOpen::Launch, remember_click: false }
    );
    assert_eq!(
        entry_click(None, false, false, false),
        ClickDecision { select: true, open: ClickOpen::Browse, remember_click: true }
    );
    assert_eq!(
        entry_click(Some(PickerKind::File), true, true, false),
        ClickDecision { select: false, open: ClickOpen::Browse, remember_click: false }
    );
    assert_eq!(
        entry_click(Some(PickerKind::File), true, false, false),
        ClickDecision { select: false, open: ClickOpen::Nothing, remember_click: true }
    );
    assert_eq!(
        entry_click(Some(PickerKind::Folder), true, false, false),
        ClickDecision { select: true, open: ClickOpen::Nothing, remember_click: true }
    );
}

#[test]
fn shift_click_selects_a_range_and_command_click_toggles() {
    let entries = strings(&["/a", "/b", "/c", "/d"]);
    let (selected, anchor) = select_entry(vec![], None, &entries, "/b", false, false, false);
    assert_eq!(selected, strings(&["/b"]));
    assert_eq!(anchor, Some("/b".to_string()));
    let (mut selected, anchor) = select_entry(selected, anchor, &entries, "/d", false, false, true);
    selected.sort();
    assert_eq!(selected, strings(&["/b", "/c", "/d"]));
    assert_eq!(anchor, Some("/d".to_string()));
    let (mut selected, _) = select_entry(selected, anchor, &entries, "/c", false, true, false);
    selected.sort();
    assert_eq!(selected, strings(&["/b", "/d"]));
    let (selected, _) = select_entry(selected, None, &entries, "/a", true, true, true);
    assert_eq!(selected, strings(&["/a"]));
}

#[test]
fn small_choices_for_the_preferences() {
    assert_eq!(sidebar_icon("Home"), "house");
    assert_eq!(sidebar_icon("Downloads"), "download");
    assert_eq!(sidebar_icon("Pictures"), "image");
    assert_eq!(sidebar_icon("Music"), "folder");
    assert_eq!(ArchiveCompression::Zstd.value(), "zstd");
    assert_eq!(ArchiveCompression::Store.value(), "store");
    let recommended = strings(&["/usr/bin/foot"]);
    assert_eq!(
        terminal_choices(&recommended),
        strings(&["System default", "/usr/bin/foot", "Custom command"])
    );
    assert_eq!(selected_terminal_choice("default", &recommended), "System default");
    assert_eq!(selected_terminal_choice("/usr/bin/foot", &recommended), "/usr/bin/foot");
    assert_eq!(selected_terminal_choice("kitty -1", &recommended), "Custom command");
    assert_eq!(icon_theme_choices(&strings(&["bundled"]), "Papirus"), strings(&["bundled", "Papirus"]));
    assert_eq!(icon_theme_choices(&strings(&["bundled"]), "bundled"), strings(&["bundled"]));
}

#[test]
fn extending_a_selection_keeps_each_entry_once() {
    let entries: Vec<String> = ["/a", "/b", "/c"].iter().map(|p| p.to_string()).collect();
    let (selected, anchor) = select_entry(vec![], None, &entries, "/a", false, false, false);
    let (selected, _) = select_entry(selected, anchor, &entries, "/c", false, true, true);
    assert_eq!(selected, vec!["/a".to_string(), "/b".to_string(), "/c".to_string()]);
}

#[test]
fn context_menus_hide_actions_that_do_not_apply() {
    let mut browser = default_browser_settings();
    browser.file_context_menu_items = vec![
        ContextMenuItem::Open,
        ContextMenuItem::CreateFolder,
        ContextMenuItem::Paste,
        ContextMenuItem::CopySelection,
        ContextMenuItem::Open,
        ContextMenuItem::Rename,
    ];
    assert_eq!(
        iron_file::browser::context_menu_actions(&browser, false, false, false, false),
        vec![ContextMenuItem::Open, ContextMenuItem::Rename]
    );
    assert_eq!(
        iron_file::browser::context_menu_actions(&browser, false, false, true, true),
        vec![
            ContextMenuItem::Open,
            ContextMenuItem::Paste,
            ContextMenuItem::CopySelection,
            ContextMenuItem::Rename
        ]
    );
    let folder = iron_file::browser::context_menu_actions(&browser, true, false, false, false);
    assert!(folder.contains(&ContextMenuItem::OpenTerminal));
    assert!(!folder.contains(&ContextMenuItem::Paste));
    assert!(iron_file::browser::context_menu_actions(&browser, true, true, true, true).is_empty());
}

#[test]
fn the_selection_compares_paths_by_component() {
    let entries: Vec<String> = ["/a", "/b"].iter().map(|p| p.to_string()).collect();
    let (selected, anchor) = select_entry(vec!["/a".to_string()], None, &entries, "/a/", false, true, false);
    assert!(selected.is_empty());
    assert_eq!(anchor, None);
    let (selected, _) = select_entry(vec!["/a".to_string()], None, &entries, "/b/", false, true, true);
    assert_eq!(selected, vec!["/a".to_string(), "/b".to_string()]);
    let (selected, _) = select_entry(selected, Some("/a/".into()), &entries, "/b", false, true, true);
    assert_eq!(selected, vec!["/a".to_string(), "/b".to_string()]);
}

#[test]
fn hidden_entries_are_shown_only_when_asked() {
    let entries = vec![entry(".config", true), entry("docs", true), entry(".bashrc", false), entry("a.txt", false)];
    let names = |v: Vec<FileEntry>| v.into_iter().map(|e| e.name).collect::<Vec<_>>();
    assert_eq!(names(iron_file::browser::visible_entries(&entries, false)), vec!["docs", "a.txt"]);
    assert_eq!(names(iron_file::browser::visible_entries(&entries, true)).len(), 4);
}

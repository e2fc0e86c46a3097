use iron_file::browser::{initial_location, should_detach};
use iron_file::config::{default_keyboard_shortcuts, KeyboardShortcutAction};
use iron_file::browser::shortcut_action;
use iron_file::browser::{key_action, KeyAction, SelectionDirection};
use iron_file::browser::{
    shortcut_key_name, KeyPress,
    parse_startup_options, valid_save_file_name, PickerKind, PickerOptions, StartupOptions,
};

fn arguments(values: &[&str]) -> Vec<String> {
    values.iter().map(|value| value.to_string()).collect()
}

#[test]
fn accepts_a_positional_location_and_follow_flag() {
    let options = parse_startup_options(arguments(&["-f", "/tmp/first", "/tmp/second"]));

    assert!(options.follow_logs);
    assert_eq!(options.initial_path, Some("/tmp/first".to_string()));
}

#[test]
fn accepts_a_location_before_the_follow_flag() {
    let options = parse_startup_options(arguments(&["/tmp/first", "--follow"]));

    assert!(options.follow_logs);
    assert_eq!(options.initial_path, Some("/tmp/first".to_string()));
}

#[test]
fn parses_folder_multi_picker_mode() {
    let options = parse_startup_options(arguments(&["--mode", "picker", "--folder", "--multiple"]));

    assert_eq!(
        options.picker,
        Some(PickerOptions {
            kind: PickerKind::Folder,
            multiple: true,
            save_file_name: None,
        })
    );
}

#[test]
fn parses_a_save_name_for_picker_mode() {
    let options = parse_startup_options(arguments(&[
        "--mode",
        "picker",
        "--folder",
        "--save-name",
        "report.txt",
    ]));

    assert_eq!(
        options.picker.and_then(|picker| picker.save_file_name),
        Some("report.txt".into())
    );
}

#[test]
fn save_name_cannot_escape_the_selected_folder() {
    assert!(valid_save_file_name("report.txt"));
    assert!(!valid_save_file_name("../report.txt"));
    assert!(!valid_save_file_name("/tmp/report.txt"));
}

#[test]
fn accepts_current_and_relative_locations() {
    let current = parse_startup_options(arguments(&["."]));
    let relative = parse_startup_options(arguments(&["./Documents"]));

    assert_eq!(current.initial_path, Some(".".to_string()));
    assert_eq!(relative.initial_path, Some("./Documents".to_string()));
}

#[test]
fn no_arguments_open_the_default_location_without_a_picker() {
    let options = parse_startup_options(Vec::new());

    assert_eq!(
        options,
        StartupOptions {
            follow_logs: false,
            initial_path: None,
            picker: None,
        }
    );
}

#[test]
fn picker_flags_without_picker_mode_are_ignored() {
    let options = parse_startup_options(arguments(&["--folder", "--multiple"]));

    assert_eq!(options.picker, None);
}

#[test]
fn the_last_picker_flags_win() {
    let options = parse_startup_options(arguments(&[
        "--picker", "--folder", "--file", "--multi", "--single",
    ]));

    assert_eq!(
        options.picker,
        Some(PickerOptions {
            kind: PickerKind::File,
            multiple: false,
            save_file_name: None,
        })
    );
}

#[test]
fn shortcut_keys_are_named_in_uppercase() {
    assert_eq!(shortcut_key_name(KeyPress::Character("r".into())), Some("R".into()));
    assert_eq!(shortcut_key_name(KeyPress::Named("F2".into())), Some("F2".into()));
    assert_eq!(shortcut_key_name(KeyPress::Character(String::new())), None);
    assert_eq!(shortcut_key_name(KeyPress::Unidentified), None);
}

#[test]
fn key_presses_become_browser_actions() {
    assert_eq!(key_action(KeyPress::Named("Escape".into()), true), Some(KeyAction::Escape));
    assert_eq!(key_action(KeyPress::Character("C".into()), true), Some(KeyAction::Copy));
    assert_eq!(key_action(KeyPress::Character("v".into()), true), Some(KeyAction::Paste));
    assert_eq!(key_action(KeyPress::Character("x".into()), true), None);
    assert_eq!(key_action(KeyPress::Named("ArrowUp".into()), true), None);
    assert_eq!(
        key_action(KeyPress::Named("ArrowLeft".into()), false),
        Some(KeyAction::Move(SelectionDirection::Left))
    );
    assert_eq!(key_action(KeyPress::Named("Enter".into()), false), Some(KeyAction::Confirm));
    assert_eq!(key_action(KeyPress::Named("Delete".into()), false), Some(KeyAction::Delete));
    assert_eq!(key_action(KeyPress::Named("F2".into()), false), Some(KeyAction::Shortcut("F2".into())));
    assert_eq!(key_action(KeyPress::Character("r".into()), false), Some(KeyAction::Shortcut("R".into())));
    assert_eq!(key_action(KeyPress::Unidentified, false), None);
}

#[test]
fn shortcuts_match_keys_ignoring_ascii_case() {
    let shortcuts = default_keyboard_shortcuts();
    assert_eq!(shortcut_action(&shortcuts, "f2"), Some(KeyboardShortcutAction::RenameSelection));
    assert_eq!(shortcut_action(&shortcuts, "F3"), None);
}

#[test]
fn plain_launches_detach_and_pickers_stay_attached() {
    let plain = parse_startup_options(Vec::new());
    assert!(should_detach(&plain, false));
    assert!(!should_detach(&plain, true));
    assert!(!should_detach(&parse_startup_options(arguments(&["-f"])), false));
    assert!(!should_detach(&parse_startup_options(arguments(&["--picker"])), false));
}

#[test]
fn pickers_reopen_the_last_folder_unless_a_location_is_given() {
    assert_eq!(initial_location(Some("Documents"), true, Some("/srv"), "/home/me"), "/home/me/Documents");
    assert_eq!(initial_location(Some("/tmp"), true, Some("/srv"), "/home/me"), "/tmp");
    assert_eq!(initial_location(None, true, Some("/srv"), "/home/me"), "/srv");
    assert_eq!(initial_location(None, false, Some("/srv"), "/home/me"), "/home/me");
    assert_eq!(initial_location(None, true, None, "/home/me"), "/home/me");
}

#[test]
fn resolves_relative_locations_from_the_invoking_directory() {
    let location = iron_file::browser::initial_location(Some("."), false, None, "/tmp");

    assert!(iron_file::paths::paths_equal(&location, "/tmp"));
    assert_eq!(std::path::PathBuf::from(&location), std::path::PathBuf::from("/tmp"));
}

#[test]
fn save_names_with_a_directory_are_refused() {
    assert!(!valid_save_file_name("docs/report.txt"));
    assert!(!valid_save_file_name("report.txt/"));
    assert!(!valid_save_file_name("."));
    assert!(!valid_save_file_name(".."));
    assert!(valid_save_file_name(".hidden"));
    assert!(!iron_file::portal::valid_file_name("docs/report.txt"));
}

#[test]
fn the_last_mode_option_and_the_first_location_win() {
    let args = |values: &[&str]| values.iter().map(|v| v.to_string()).collect::<Vec<_>>();
    assert!(parse_startup_options(args(&["--mode", "browser", "--picker"])).picker.is_some());
    assert!(parse_startup_options(args(&["--picker", "--mode", "browser"])).picker.is_none());
    assert!(parse_startup_options(args(&["--picker", "--mode", "picker"])).picker.is_some());
    assert_eq!(
        parse_startup_options(args(&["/first", "--save-name", "/x", "/second"])).initial_path,
        Some("/first".to_string())
    );
}

use iron_file::commands::{finished_effect, Finished};
use iron_file::commands::{confirmed_entry_name, rename_suggestion};
use iron_file::browser::{PickerKind, PickerOptions};
use iron_file::commands::{
    browser_command_effect, picker_choice, BrowserCommand, CommandEffect, PasteBuffer, PasteMode,
};

fn strings(values: &[&str]) -> Vec<String> {
    values.iter().map(|value| value.to_string()).collect()
}

#[test]
fn commands_are_ignored_outside_the_browser() {
    assert_eq!(
        browser_command_effect(BrowserCommand::Paste, false, &vec![], None, "/tmp"),
        CommandEffect::Ignore
    );
}

#[test]
fn copying_fills_the_paste_buffer_in_path_order() {
    let effect = browser_command_effect(
        BrowserCommand::CopySelection,
        true,
        &strings(&["/tmp/b", "/tmp/a-b", "/tmp/a/c"]),
        None,
        "/tmp",
    );
    assert_eq!(
        effect,
        CommandEffect::Buffer {
            buffer: PasteBuffer { entries: strings(&["/tmp/a/c", "/tmp/a-b", "/tmp/b"]), mode: PasteMode::Copy },
            status: "Copied 3 item(s) to the clipboard".into(),
        }
    );
    assert_eq!(
        browser_command_effect(BrowserCommand::CopySelection, true, &vec![], None, "/tmp"),
        CommandEffect::Status("Select files or folders to copy".into())
    );
}

#[test]
fn renaming_needs_exactly_one_entry() {
    assert_eq!(
        browser_command_effect(BrowserCommand::RenameSelection, true, &strings(&["/tmp/a"]), None, "/tmp"),
        CommandEffect::Rename("/tmp/a".into())
    );
    assert_eq!(
        browser_command_effect(BrowserCommand::RenameSelection, true, &strings(&["/tmp/a", "/tmp/b"]), None, "/tmp"),
        CommandEffect::Status("Select exactly one file or folder to rename".into())
    );
}

#[test]
fn pasting_needs_a_buffer() {
    assert_eq!(
        browser_command_effect(BrowserCommand::Paste, true, &vec![], None, "/tmp"),
        CommandEffect::Status("Nothing to paste".into())
    );
    let buffer = PasteBuffer { entries: strings(&["/a", "/b"]), mode: PasteMode::Symlink };
    assert_eq!(
        browser_command_effect(BrowserCommand::Paste, true, &vec![], Some(buffer.clone()), "/tmp"),
        CommandEffect::Paste { buffer, destination: "/tmp".into(), status: "Pasting 2 item(s)...".into() }
    );
}

#[test]
fn deleting_and_extracting_use_the_selection_in_path_order() {
    assert_eq!(
        browser_command_effect(BrowserCommand::DeleteSelection, true, &strings(&["/b", "/a"]), None, "/tmp"),
        CommandEffect::ConfirmDelete(strings(&["/a", "/b"]))
    );
    assert_eq!(
        browser_command_effect(BrowserCommand::ExtractSelection, true, &strings(&["/b.zip"]), None, "/tmp"),
        CommandEffect::Extract {
            paths: strings(&["/b.zip"]),
            destination: "/tmp".into(),
            status: "Extracting 1 archive(s)...".into(),
        }
    );
    assert_eq!(
        browser_command_effect(BrowserCommand::CompressSelection, true, &vec![], None, "/tmp"),
        CommandEffect::Status("Select files or folders first".into())
    );
    assert_eq!(
        browser_command_effect(BrowserCommand::CompressSelection, true, &strings(&["/a"]), None, "/tmp"),
        CommandEffect::AskCompression
    );
}

#[test]
fn symbolic_links_are_buffered_or_created() {
    assert_eq!(
        browser_command_effect(BrowserCommand::AddSymlinkToPasteBuffer("/a".into()), true, &vec![], None, "/tmp"),
        CommandEffect::Buffer {
            buffer: PasteBuffer { entries: strings(&["/a"]), mode: PasteMode::Symlink },
            status: "Added symbolic link to the paste buffer".into(),
        }
    );
    assert_eq!(
        browser_command_effect(BrowserCommand::CreateSymlinksHere("/a".into()), true, &vec![], None, "/tmp"),
        CommandEffect::CreateSymlinks {
            sources: strings(&["/a"]),
            destination: "/tmp".into(),
            status: "Creating symbolic link...".into(),
        }
    );
    assert_eq!(
        browser_command_effect(BrowserCommand::CopyLocation("/a".into()), true, &vec![], None, "/tmp"),
        CommandEffect::CopyLocation("/a".into())
    );
}

#[test]
fn a_folder_picker_without_selection_picks_the_current_folder() {
    let picker = PickerOptions { kind: PickerKind::Folder, multiple: false, save_file_name: None };
    assert_eq!(picker_choice(&picker, None, &vec![], &vec![], "/home/me"), Ok(strings(&["/home/me"])));
    assert_eq!(
        picker_choice(&picker, Some("report.txt"), &vec![], &vec![], "/home/me"),
        Ok(strings(&["/home/me/report.txt"]))
    );
}

#[test]
fn a_file_picker_needs_a_selected_file() {
    let picker = PickerOptions { kind: PickerKind::File, multiple: true, save_file_name: None };
    assert_eq!(
        picker_choice(&picker, None, &strings(&["/tmp/dir"]), &vec![false], "/tmp"),
        Err("Select a file first".into())
    );
    assert_eq!(
        picker_choice(&picker, None, &strings(&["/tmp/b", "/tmp/a", "/tmp/dir"]), &vec![true, true, false], "/tmp"),
        Ok(strings(&["/tmp/a", "/tmp/b"]))
    );
    let single = PickerOptions { kind: PickerKind::File, multiple: false, save_file_name: None };
    assert_eq!(
        picker_choice(&single, None, &strings(&["/tmp/b", "/tmp/a"]), &vec![true, true], "/tmp"),
        Ok(strings(&["/tmp/a"]))
    );
}

#[test]
fn a_save_name_must_not_leave_the_folder() {
    let picker = PickerOptions { kind: PickerKind::Folder, multiple: false, save_file_name: None };
    assert_eq!(
        picker_choice(&picker, Some("../x"), &vec![], &vec![], "/tmp"),
        Err("Enter a simple file name".into())
    );
}

#[test]
fn new_names_are_trimmed_and_must_not_be_empty() {
    assert_eq!(confirmed_entry_name("  notes.txt "), Ok("notes.txt".into()));
    assert_eq!(confirmed_entry_name("   "), Err("Enter a name".into()));
    assert_eq!(rename_suggestion("/tmp/notes.txt"), "notes.txt");
    assert_eq!(rename_suggestion("/"), "");
}

#[test]
fn compression_needs_a_selection() {
    assert_eq!(
        iron_file::commands::compression_request(
            &vec![],
            "/tmp",
            6,
            iron_file::browser::ArchiveCompression::Deflate
        ),
        Err("Select files or folders first".to_string())
    );
}

#[test]
fn compression_sends_the_selection_in_path_order() {
    let request = iron_file::commands::compression_request(
        &vec!["/tmp/b".to_string(), "/tmp/a".to_string()],
        "/tmp",
        9,
        iron_file::browser::ArchiveCompression::Zstd,
    )
    .unwrap();
    assert_eq!(request.sources, vec!["/tmp/a".to_string(), "/tmp/b".to_string()]);
    assert_eq!(request.destination, "/tmp");
    assert_eq!(request.level, 9);
    assert_eq!(request.compression, "zstd");
    assert_eq!(request.status, "Compressing 2 item(s)...");
}

#[test]
fn finished_operations_report_and_reload() {
    let copied = finished_effect(Finished::Copy(Ok(3)));
    assert_eq!(copied.status, "Copied 3 item(s)");
    assert!(copied.reload);
    assert!(!copied.clear_selection);
    let failed = finished_effect(Finished::Compress(Err("disk full".into())));
    assert_eq!(failed.status, "Compressed failed: disk full");
    assert!(!failed.reload);
    assert_eq!(finished_effect(Finished::Extract(Ok(1))).status, "Extracted 1 item(s)");
    let deleted = finished_effect(Finished::Delete(Ok(2)));
    assert_eq!(deleted.status, "Deleted 2 item(s)");
    assert!(deleted.clear_selection);
    assert!(!finished_effect(Finished::Delete(Err("busy".into()))).clear_selection);
    assert_eq!(
        finished_effect(Finished::Create(Ok("/tmp/new".into()))).status,
        "Created /tmp/new"
    );
    assert_eq!(
        finished_effect(Finished::Rename(Ok("/tmp/renamed".into()))).status,
        "Renamed to /tmp/renamed"
    );
    assert_eq!(
        finished_effect(Finished::Rename(Err("exists".into()))).status,
        "Rename failed: exists"
    );
}

#[test]
fn a_confirmed_picker_prints_one_path_per_line_and_a_cancelled_one_nothing() {
    assert_eq!(
        iron_file::commands::picker_output(Some(vec!["/tmp/a".into(), "/tmp/b c".into()])),
        "/tmp/a\n/tmp/b c\n"
    );
    assert_eq!(iron_file::commands::picker_output(None), "");
}

#[test]
fn the_save_name_can_be_reset_to_the_given_name() {
    let mut field = iron_file::browser::SaveNameField::new(Some("report.txt".into()));
    assert!(!field.reset_offered());
    field.edit("summary.txt".into());
    assert_eq!(field.current.as_deref(), Some("summary.txt"));
    assert!(field.reset_offered());
    field.reset();
    assert_eq!(field.current.as_deref(), Some("report.txt"));
    assert!(!field.reset_offered());
    assert!(!iron_file::browser::SaveNameField::new(None).reset_offered());
}

#[test]
fn dialog_and_menu_labels() {
    assert_eq!(iron_file::commands::delete_prompt(3), "Delete 3 item(s)?");
    assert_eq!(iron_file::commands::create_prompt(true), "Create folder");
    assert_eq!(iron_file::commands::create_prompt(false), "Create file");
    assert_eq!(iron_file::commands::open_label(&Some(Ok("Text Editor".into()))), "Open (with Text Editor)");
    assert_eq!(iron_file::commands::open_label(&Some(Err("none".into()))), "Open");
    assert_eq!(iron_file::commands::open_label(&None), "Open");
}

#[test]
fn resetting_after_several_edits_restores_the_given_name() {
    let mut field = iron_file::browser::SaveNameField::new(Some("report.txt".into()));
    for name in ["a", "b.txt", "report.txt", "c"] {
        field.edit(name.into());
    }
    field.reset();
    assert_eq!(field.current.as_deref(), Some("report.txt"));
    assert!(!field.reset_offered());
}

use iron_file::portal::{save_files_reply, PortalError};
use iron_file::paths::unique;
use iron_file::portal::{
    chooser_reply, ChooserReply,
    paths_from_uris, picker_arguments, picker_output_paths, response_uris, save_file_name,
    save_file_names, save_files_paths, valid_file_name,
};

fn strings(values: &[&str]) -> Vec<String> {
    values.iter().map(|value| value.to_string()).collect()
}

#[test]
fn save_names_must_be_simple_file_names() {
    assert!(valid_file_name("report.txt"));
    assert!(!valid_file_name(""));
    assert!(!valid_file_name("../report.txt"));
    assert!(!valid_file_name("/tmp/report.txt"));
}

#[test]
fn resolves_paths_from_file_uris_and_ignores_others() {
    let paths = paths_from_uris(&strings(&[
        "file:///dev/null",
        "not a uri",
        "http://example.com/file",
    ]));
    assert_eq!(paths, strings(&["/dev/null"]));
}

#[test]
fn unique_removes_duplicate_paths_preserving_order() {
    let paths = unique(strings(&["/a", "/b", "/a"]));
    assert_eq!(paths, strings(&["/a", "/b"]));
}

#[test]
fn a_save_request_needs_a_valid_current_name() {
    assert_eq!(save_file_name(Some("report.txt".into())), Ok("report.txt".to_string()));
    assert_eq!(
        save_file_name(Some("../report.txt".into())),
        Err("SaveFile requires a current_name".to_string())
    );
    assert_eq!(
        save_file_name(None),
        Err("SaveFile requires a current_name".to_string())
    );
}

#[test]
fn save_files_names_drop_trailing_nuls() {
    let names = save_file_names(Some(vec![b"a.txt\0\0".to_vec(), b"b.txt".to_vec()]));
    assert_eq!(names, Ok(strings(&["a.txt", "b.txt"])));
}

#[test]
fn save_files_names_are_refused_when_one_escapes_or_none_is_given() {
    let expected = Err("SaveFiles requires valid file names".to_string());
    assert_eq!(
        save_file_names(Some(vec![b"a.txt".to_vec(), b"../b.txt".to_vec()])),
        expected
    );
    assert_eq!(save_file_names(Some(Vec::new())), expected);
    assert_eq!(save_file_names(None), expected);
}

#[test]
fn the_picker_is_started_with_its_mode_and_save_name() {
    assert_eq!(
        picker_arguments(true, false, Some("report.txt")),
        strings(&["--mode", "picker", "--folder", "--single", "--save-name", "report.txt"])
    );
    assert_eq!(
        picker_arguments(false, true, None),
        strings(&["--mode", "picker", "--file", "--multiple"])
    );
}

#[test]
fn picker_output_is_read_line_by_line_unless_the_picker_failed() {
    assert_eq!(
        picker_output_paths(true, b"/tmp/a\n/tmp/b\r\n"),
        strings(&["/tmp/a", "/tmp/b"])
    );
    assert!(picker_output_paths(false, b"/tmp/a\n").is_empty());
}

#[test]
fn chosen_paths_become_file_uris() {
    assert_eq!(
        response_uris(&strings(&["/tmp/a b", "/dev/null"])),
        Ok(strings(&["file:///tmp/a%20b", "file:///dev/null"]))
    );
}

#[test]
fn relative_or_missing_paths_have_no_uri() {
    let expected = Err("could not convert selected paths to file URIs".to_string());
    assert_eq!(response_uris(&strings(&["relative/path"])), expected);
    assert_eq!(response_uris(&Vec::new()), expected);
}

#[test]
fn saved_files_land_in_the_chosen_folder() {
    assert_eq!(
        save_files_paths("/tmp/out", &strings(&["a.txt", "b.txt"])),
        strings(&["/tmp/out/a.txt", "/tmp/out/b.txt"])
    );
}

#[test]
fn a_chooser_without_a_choice_is_cancelled() {
    assert_eq!(chooser_reply(&Vec::new()), Ok(ChooserReply::Cancelled));
    assert_eq!(
        chooser_reply(&strings(&["/tmp/a"])),
        Ok(ChooserReply::Chosen(strings(&["file:///tmp/a"])))
    );
    assert_eq!(
        chooser_reply(&strings(&["relative"])),
        Err("could not convert selected paths to file URIs".into())
    );
}

#[test]
fn save_files_refuses_a_name_that_is_not_utf8() {
    let files = vec![b"a.txt\0".to_vec(), vec![0xff, 0xfe], b"b.txt\0".to_vec()];
    assert_eq!(
        iron_file::portal::save_file_names(Some(files)),
        Err("SaveFiles requires valid file names".to_string())
    );
    let files = vec![b"a.txt\0".to_vec(), b"b.txt".to_vec()];
    assert_eq!(
        iron_file::portal::save_file_names(Some(files)),
        Ok(vec!["a.txt".to_string(), "b.txt".to_string()])
    );
}

#[test]
fn save_files_replies_follow_the_picker_and_the_names() {
    assert_eq!(save_files_reply(&vec![], None), Ok(ChooserReply::Cancelled));
    assert_eq!(
        save_files_reply(&vec!["/tmp".to_string()], None),
        Err(PortalError::InvalidArgs("SaveFiles requires valid file names".to_string()))
    );
    assert_eq!(
        save_files_reply(
            &vec!["/tmp".to_string()],
            Some(vec![b"b.txt\0".to_vec(), b"a.txt".to_vec()])
        ),
        Ok(ChooserReply::Chosen(vec![
            "file:///tmp/b.txt".to_string(),
            "file:///tmp/a.txt".to_string()
        ]))
    );
    assert_eq!(
        iron_file::portal::save_file_reply(&vec!["/tmp/r.txt".into(), "/tmp/x".into()]),
        Ok(ChooserReply::Chosen(vec!["file:///tmp/r.txt".to_string()]))
    );
    assert_eq!(iron_file::portal::save_file_reply(&vec![]), Ok(ChooserReply::Cancelled));
}

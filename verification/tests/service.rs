use iron_file::browser::FileEntry;
use iron_file::service::{
    entry_label, hex_digits, log_entry, panel_update, LogReceive, BrowseResponse, PanelUpdate, browse_step, directory_payload, read_payload, thumbnail_filename, thumbnail_paths,
    BrowseStep, PathKind, Payload,
};

fn entry(name: &str, is_directory: bool) -> FileEntry {
    FileEntry {
        name: name.to_string(),
        path: format!("/tmp/{name}"),
        is_directory,
        thumbnail_path: String::new(),
    }
}

#[test]
fn thumbnail_filename_is_the_sha1_of_the_full_path() {
    assert_eq!(
        thumbnail_filename("/tmp/image.png"),
        "0fef0cc8ed6b0e98686a7ae869b2eda3aafce32e"
    );
}

#[test]
fn thumbnails_are_kept_under_their_hash_in_the_thumbnail_folder() {
    let paths = thumbnail_paths("/tmp/thumbs", "/tmp/image.png");
    assert_eq!(
        paths.thumbnail,
        "/tmp/thumbs/0fef0cc8ed6b0e98686a7ae869b2eda3aafce32e"
    );
    assert_eq!(
        paths.temporary,
        "/tmp/thumbs/0fef0cc8ed6b0e98686a7ae869b2eda3aafce32e.tmp"
    );
}

#[test]
fn folders_are_listed_and_small_files_read() {
    assert_eq!(browse_step(Ok(PathKind::Directory)), BrowseStep::ListDirectory);
    assert_eq!(
        browse_step(Ok(PathKind::File { size: 1_000_000 })),
        BrowseStep::ReadFile
    );
}

#[test]
fn large_files_are_not_previewed() {
    assert_eq!(
        browse_step(Ok(PathKind::File { size: 1_000_001 })),
        BrowseStep::Respond(Payload::File(
            "Preview unavailable: file is larger than 1000000 bytes.".to_string()
        ))
    );
}

#[test]
fn other_entries_and_metadata_errors_are_reported() {
    assert_eq!(
        browse_step(Ok(PathKind::Other)),
        BrowseStep::Respond(Payload::Error("Unsupported filesystem entry".to_string()))
    );
    assert_eq!(
        browse_step(Err("No such file or directory (os error 2)".to_string())),
        BrowseStep::Respond(Payload::Error(
            "No such file or directory (os error 2)".to_string()
        ))
    );
}

#[test]
fn file_contents_are_previewed_as_text_or_marked_binary() {
    assert_eq!(
        read_payload(Ok("hello\n".as_bytes().to_vec())),
        Payload::File("hello\n".to_string())
    );
    assert_eq!(
        read_payload(Ok(vec![0xff, 0x00])),
        Payload::File("Preview unavailable: binary file.".to_string())
    );
    assert_eq!(
        read_payload(Err("permission denied".to_string())),
        Payload::Error("permission denied".to_string())
    );
}

#[test]
fn folders_come_first_then_names_ignoring_case() {
    let payload = directory_payload(vec![
        entry("b.txt", false),
        entry("Zeta", true),
        entry("A.txt", false),
        entry("alpha", true),
        entry("a.TXT", false),
    ]);
    let names: Vec<String> = match payload {
        Payload::Directory(entries) => entries.into_iter().map(|e| e.name).collect(),
        other => panic!("unexpected payload {other:?}"),
    };
    assert_eq!(names, vec!["alpha", "Zeta", "A.txt", "a.TXT", "b.txt"]);
}

#[test]
fn the_simple_window_shows_folders_files_and_errors() {
    let folder = panel_update(Ok(BrowseResponse {
        path: "/tmp".into(),
        payload: Some(Payload::Directory(vec![entry("a", true)])),
    }));
    assert_eq!(
        folder,
        PanelUpdate {
            address: Some("/tmp".into()),
            entries: Some(vec![entry("a", true)]),
            content: Some(String::new()),
            status: "Directory loaded".into(),
        }
    );
    let file = panel_update(Ok(BrowseResponse {
        path: "/tmp/a".into(),
        payload: Some(Payload::File("hi".into())),
    }));
    assert_eq!(file.content, Some("hi".into()));
    assert_eq!(file.status, "File preview");
    assert_eq!(
        panel_update(Ok(BrowseResponse { path: "/x".into(), payload: None })).status,
        "Backend returned an invalid response"
    );
    assert_eq!(panel_update(Err("down".into())).status, "down");
    assert_eq!(entry_label(&entry("a", true)), "[Folder] a");
    assert_eq!(entry_label(&entry("b", false)), "[File] b");
}

#[test]
fn digests_are_written_in_lowercase_hexadecimal() {

    assert_eq!(hex_digits(&vec![0x0f, 0xa0, 0x00, 0xff]), "0fa000ff");
    assert_eq!(hex_digits(&vec![]), "");
}

#[test]
fn lagging_log_subscribers_are_told_what_they_missed() {
    assert_eq!(log_entry(LogReceive::Message("Opening /tmp".into())), Some("Opening /tmp".into()));
    assert_eq!(log_entry(LogReceive::Lagged(12)), Some("Skipped 12 backend log messages".into()));
    assert_eq!(log_entry(LogReceive::Closed), None);
}

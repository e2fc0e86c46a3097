use iron_file::client::socket_path_from;
use iron_file::config::ConfigStore;
use iron_file::paths::{has_several_components, parent, path_key, sort_paths, unique};
use iron_file::portal::{directory_to_open, item_directories, parent_directory};
use iron_file::text::{replace, split, split_once, words};

fn strings(values: &[&str]) -> Vec<String> {
    values.iter().map(|value| value.to_string()).collect()
}

#[test]
fn parent_directory_of_a_file_is_its_parent() {
    assert_eq!(parent_directory("/dev/null", false), "/dev");
}

#[test]
fn parent_directory_of_a_directory_is_itself() {
    assert_eq!(parent_directory("/dev", true), "/dev");
}

#[test]
fn parents_follow_path_components() {
    assert_eq!(parent("/dev/null"), Some("/dev".into()));
    assert_eq!(parent("/dev/"), Some("/".into()));
    assert_eq!(parent("/dev"), Some("/".into()));
    assert_eq!(parent("a/./b"), Some("a".into()));
    assert_eq!(parent("a/b/."), Some("a".into()));
    assert_eq!(parent("./a"), Some(".".into()));
    assert_eq!(parent("a"), Some("".into()));
    assert_eq!(parent("/"), None);
    assert_eq!(parent(""), None);
    assert_eq!(parent("//a/b"), Some("//a".into()));
}

#[test]
fn files_without_a_parent_cannot_be_opened_as_folders() {
    assert_eq!(directory_to_open("/", false), Err("file has no parent directory".into()));
    assert_eq!(directory_to_open("/tmp/a", false), Ok("/tmp".into()));
    assert_eq!(directory_to_open("/tmp", true), Ok("/tmp".into()));
}

#[test]
fn items_are_shown_in_their_folders_once() {
    assert_eq!(
        item_directories(&strings(&["/tmp/a", "/tmp/b", "/srv"]), &vec![false, false, true]),
        strings(&["/tmp", "/srv"])
    );
}

#[test]
fn equal_paths_are_equal_component_by_component() {
    assert_eq!(path_key("/a//b/"), path_key("/a/b"));
    assert_eq!(path_key("a/./b"), path_key("a/b"));
    assert_ne!(path_key("./a"), path_key("a"));
    assert_eq!(unique(strings(&["/a/", "/a", "/b"])), strings(&["/a/", "/b"]));
}

#[test]
fn paths_sort_component_by_component() {
    assert_eq!(
        sort_paths(strings(&["/a-b", "/a/b", "/a", "/"])),
        strings(&["/", "/a", "/a/b", "/a-b"])
    );
}

#[test]
fn component_counts() {
    assert!(!has_several_components("foot"));
    assert!(!has_several_components("foot/"));
    assert!(has_several_components("./foot"));
    assert!(has_several_components("/usr/bin/foot"));
    assert!(!has_several_components("/"));
}

#[test]
fn text_is_split_as_the_standard_library_does() {
    assert_eq!(split("a::b", ':'), strings(&["a", "", "b"]));
    assert_eq!(split("", ':'), strings(&[""]));
    assert_eq!(words("  a  b\tc\n"), strings(&["a", "b", "c"]));
    assert!(words("   ").is_empty());
    assert_eq!(split_once("a - b - c", " - "), Some(("a".into(), "b - c".into())));
    assert_eq!(split_once("abc", " - "), None);
    assert_eq!(replace("aXbXX", "X", "yy"), "ayybyyyy");
}

#[test]
fn configuration_folders_come_from_the_environment() {
    let store = ConfigStore::from_environment_values(None, Some("/home/me".into()), Some("/etc/a:/etc/b".into()));
    assert_eq!(store.user_config_dir(), "/home/me/.config/iron-file");
    assert_eq!(
        store.search_paths(),
        &strings(&[
            "/home/me/.config/iron-file/profiles",
            "/etc/a/iron-file/profiles",
            "/etc/b/iron-file/profiles",
        ])[..]
    );
    let store = ConfigStore::from_environment_values(Some("/cfg".into()), None, None);
    assert_eq!(
        store.search_paths(),
        &strings(&["/cfg/iron-file/profiles", "/etc/xdg/iron-file/profiles"])[..]
    );
    let store = ConfigStore::from_environment_values(None, None, None);
    assert_eq!(store.user_config_dir(), ".config/iron-file");
    assert_eq!(socket_path_from(None, None, "/tmp"), "/tmp/iron-file-backend.sock");
}

#[test]
fn replacing_follows_str_replace_also_for_an_empty_pattern() {
    assert_eq!(iron_file::text::replace("abc", "", "x"), "abc".replace("", "x"));
    assert_eq!(iron_file::text::replace("", "", "x"), "x");
    assert_eq!(iron_file::text::replace("a\\040b\\040", "\\040", " "), "a b ");
}

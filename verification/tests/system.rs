use iron_file::system::{
    application_display_name, available_icon_themes, default_application_from,
    desktop_entry_search, drives_of_devices, gio_icon_names, gnome_terminal_command,
    icon_candidates, icon_theme_directories, mime_type_from, mount_list, no_terminal_message,
    open_failed_message, remote_mounts, setting_value, terminal_check, terminal_plan,
    terminal_search_script, unescape_mount_path, BlockDevice, Drive, SystemMount, TerminalCheck,
    TerminalPlan,
};

fn strings(values: &[&str]) -> Vec<String> {
    values.iter().map(|value| value.to_string()).collect()
}

fn device(name: &str, kind: &str, label: Option<&str>, mounts: &[Option<&str>], children: Vec<BlockDevice>) -> BlockDevice {
    BlockDevice {
        name: name.to_string(),
        path: Some(format!("/dev/{name}")),
        label: label.map(str::to_string),
        mountpoints: mounts.iter().map(|m| m.map(str::to_string)).collect(),
        children,
        device_type: kind.to_string(),
    }
}

#[test]
fn gsettings_values_lose_their_quotes() {
    assert_eq!(setting_value(b"'Adwaita'\n"), "Adwaita");
    assert_eq!(setting_value(b"  plain  "), "plain");
}

#[test]
fn the_desktop_icon_theme_is_offered_after_the_bundled_icons() {
    assert_eq!(available_icon_themes(Some(b"'Papirus-Dark'\n".to_vec())), strings(&["bundled", "Papirus-Dark"]));
    assert_eq!(available_icon_themes(Some(b"''\n".to_vec())), strings(&["bundled"]));
    assert_eq!(available_icon_themes(Some(b"'bundled'".to_vec())), strings(&["bundled"]));
    assert_eq!(available_icon_themes(None), strings(&["bundled"]));
}

#[test]
fn gnome_terminal_needs_a_non_empty_setting() {
    assert_eq!(gnome_terminal_command(Some(b"'kgx'\n".to_vec())), Some("kgx".to_string()));
    assert_eq!(gnome_terminal_command(Some(b"''\n".to_vec())), None);
    assert_eq!(gnome_terminal_command(None), None);
}

#[test]
fn icon_names_come_from_the_icon_line() {
    let output = b"uri: file:///tmp/a.txt\n  standard::icon: text-plain, text-x-generic, ,\n";
    assert_eq!(gio_icon_names(true, output), strings(&["text-plain", "text-x-generic"]));
    assert!(gio_icon_names(false, output).is_empty());
    assert!(gio_icon_names(true, b"nothing here\n").is_empty());
}

#[test]
fn icon_themes_are_searched_in_home_then_system_folders() {
    assert_eq!(
        icon_theme_directories("Papirus", Some("/home/me")),
        strings(&[
            "/home/me/.nix-profile/share/icons/Papirus",
            "/home/me/.local/share/icons/Papirus",
            "/run/current-system/sw/share/icons/Papirus",
        ])
    );
    assert_eq!(
        icon_theme_directories("Papirus", None),
        strings(&["/run/current-system/sw/share/icons/Papirus"])
    );
}

#[test]
fn icon_files_are_tried_from_the_largest_size() {
    assert!(icon_candidates("bundled", &strings(&["/r"]), &strings(&["a"])).is_empty());
    let candidates = icon_candidates("Papirus", &strings(&["/r"]), &strings(&["a", "b"]));
    assert_eq!(candidates.len(), 50);
    assert_eq!(candidates[0], "/r/128x128/mimetypes/a.svg");
    assert_eq!(candidates[1], "/r/128x128/places/a.svg");
    assert_eq!(candidates[5], "/r/128x128/mimetypes/b.svg");
    assert_eq!(candidates[10], "/r/96x96/mimetypes/a.svg");
    assert_eq!(candidates[49], "/r/scalable/apps/b.svg");
}

#[test]
fn recommended_terminals_are_found_with_a_shell_script() {
    assert_eq!(
        terminal_search_script(),
        "for app in gnome-terminal konsole xfce4-terminal mate-terminal lxterminal kitty alacritty wezterm foot urxvt xterm tilix; do command -v \"$app\" 2>/dev/null; done"
    );
}

#[test]
fn a_configured_terminal_is_used_as_is() {
    assert_eq!(terminal_plan("  foot --hold ", None), TerminalPlan::Configured("foot --hold".into()));
}

#[test]
fn without_a_configured_terminal_the_fallbacks_are_tried() {
    let plan = terminal_plan("default", Some("kgx".into()));
    let TerminalPlan::FirstAvailable(candidates) = plan else {
        panic!("expected fallbacks");
    };
    assert_eq!(candidates[0], "kgx");
    assert_eq!(candidates[1], "xdg-terminal-exec");
    assert_eq!(candidates[2], "x-terminal-emulator");
    assert_eq!(candidates[3], "gnome-terminal");
    assert_eq!(candidates.len(), 15);
    let TerminalPlan::FirstAvailable(candidates) = terminal_plan("  ", None) else {
        panic!("expected fallbacks");
    };
    assert_eq!(candidates[0], "xdg-terminal-exec");
    assert_eq!(candidates.len(), 14);
}

#[test]
fn terminal_programs_are_looked_up_on_the_search_path() {
    assert_eq!(
        terminal_check("foot --hold", Some("/usr/bin:/bin")),
        TerminalCheck::AnyFile(strings(&["/usr/bin/foot", "/bin/foot"]))
    );
    assert_eq!(
        terminal_check("/opt/foot/bin/foot -e sh", Some("/usr/bin")),
        TerminalCheck::File("/opt/foot/bin/foot".into())
    );
    assert_eq!(terminal_check("./foot", None), TerminalCheck::File("./foot".into()));
    assert_eq!(terminal_check("foot", None), TerminalCheck::Unavailable);
    assert_eq!(terminal_check("   ", Some("/usr/bin")), TerminalCheck::Unavailable);
    assert_eq!(
        no_terminal_message("/tmp"),
        "No supported terminal command is available for /tmp"
    );
}

#[test]
fn mime_types_and_default_applications_are_read_from_the_tools() {
    assert_eq!(mime_type_from("/tmp/a", true, b"text/plain\n"), Ok("text/plain".into()));
    assert_eq!(
        mime_type_from("/tmp/a", false, b""),
        Err("Could not determine the type of /tmp/a".into())
    );
    assert_eq!(
        mime_type_from("/tmp/a", true, b"  \n"),
        Err("No MIME type was returned for /tmp/a".into())
    );
    assert_eq!(
        default_application_from("text/plain", true, b"org.gnome.TextEditor.desktop\n"),
        Ok("org.gnome.TextEditor.desktop".into())
    );
    assert_eq!(
        default_application_from("text/plain", false, b""),
        Err("Could not find an application for text/plain".into())
    );
    assert_eq!(
        default_application_from("text/plain", true, b"\n"),
        Err("No default application is configured for text/plain".into())
    );
    assert_eq!(open_failed_message("/tmp/a"), "xdg-open could not open /tmp/a");
}

#[test]
fn application_names_come_from_desktop_entries() {
    let args = desktop_entry_search("/home/me", "me", "foot.desktop");
    assert_eq!(args[0], "/home/me/.local/share/applications");
    assert_eq!(args[2], "/etc/profiles/per-user/me/share/applications");
    assert_eq!(args[5], "foot.desktop");
    assert_eq!(args.len(), 13);
    assert_eq!(
        application_display_name("foot.desktop".into(), Some(b"Foot\n".to_vec())),
        "Foot"
    );
    assert_eq!(
        application_display_name("foot.desktop".into(), Some(b"\n".to_vec())),
        "foot.desktop"
    );
    assert_eq!(application_display_name("foot.desktop".into(), None), "foot.desktop");
}

#[test]
fn mount_points_are_unescaped() {
    assert_eq!(unescape_mount_path("/mnt/my\\040drive\\011x\\012y\\134z"), "/mnt/my drive\tx\ny\\z");
}

#[test]
fn remote_mounts_are_the_rclone_filesystems() {
    let mountinfo = "22 1 0:21 / /proc rw,nosuid - proc proc rw\n\
                     85 30 0:45 / /home/me/cloud\\040drive rw,nosuid shared:1 - fuse.rclone remote: rw\n\
                     86 30 0:46 / /broken rw - fuse.rclone\n";
    assert_eq!(
        remote_mounts(mountinfo),
        vec![SystemMount {
            path: "/home/me/cloud drive".into(),
            filesystem: "fuse.rclone".into(),
        }]
    );
}

#[test]
fn drives_are_partitions_and_disks_without_partitions() {
    let disk = device(
        "sda",
        "disk",
        None,
        &[],
        vec![
            device("sda1", "part", Some("Data"), &[Some("/mnt/data"), None], vec![]),
            device("sda2", "part", None, &[], vec![]),
        ],
    );
    let usb = device("sdb", "disk", Some("Stick"), &[Some("/media/stick")], vec![]);
    let rom = device("sr0", "rom", None, &[], vec![]);
    let drives = drives_of_devices(&vec![disk, usb, rom]);
    assert_eq!(
        drives,
        vec![
            Drive { path: "/dev/sda1".into(), name: "Data".into(), mount_points: strings(&["/mnt/data"]) },
            Drive { path: "/dev/sda2".into(), name: "sda2".into(), mount_points: vec![] },
            Drive { path: "/dev/sdb".into(), name: "Stick".into(), mount_points: strings(&["/media/stick"]) },
        ]
    );
}

#[test]
fn mounts_are_listed_by_path_once() {
    let drives = vec![Drive {
        path: "/dev/sdb".into(),
        name: "Stick".into(),
        mount_points: strings(&["/media/stick", "/mnt/a"]),
    }];
    let remote = vec![
        SystemMount { path: "/mnt/a/".into(), filesystem: "fuse.rclone".into() },
        SystemMount { path: "/home/me/cloud".into(), filesystem: "fuse.rclone".into() },
    ];
    let mounts = mount_list(&drives, remote);
    let listed: Vec<(String, String)> = mounts.into_iter().map(|m| (m.path, m.filesystem)).collect();
    assert_eq!(
        listed,
        vec![
            ("/home/me/cloud".to_string(), "fuse.rclone".to_string()),
            ("/media/stick".to_string(), "block".to_string()),
            ("/mnt/a".to_string(), "block".to_string()),
        ]
    );
}

#[test]
fn installed_terminals_are_read_one_per_line() {
    assert_eq!(
        iron_file::system::installed_terminals(b"/usr/bin/foot\n/usr/bin/xterm\n"),
        strings(&["/usr/bin/foot", "/usr/bin/xterm"])
    );
}

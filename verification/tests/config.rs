use iron_file::config::{
    default_browser_settings, default_context_menu_blur_kernel_size, default_sidebar_locations,
    default_theme_settings, profile_filename, profile_name_from_path, resolve_profile,
    select_profile_paths, sort_profiles, ColorMode, ConfigStore, ContextMenuBlurKernelSize,
    ContextMenuItem, KernelSizeValue, ProfileFile, QuickToolbarItem, SidebarLocation,
};

fn store() -> ConfigStore {
    ConfigStore::with_paths("/tmp/iron-file-test/user".into(), vec!["/etc/xdg/iron-file".into()])
}

fn empty_file() -> ProfileFile {
    ProfileFile {
        name: None,
        color_mode: None,
        sidebar_locations: None,
        theme: None,
        browser: None,
        base_profile: None,
    }
}

#[test]
fn creates_profiles_and_persists_the_active_profile() {
    let store = ConfigStore::with_paths("/tmp/iron-file-test/user".into(), vec![]);
    let write = store.create_profile("Work files", None, &vec![]).unwrap();
    let profile = resolve_profile(&write.path, write.file, None, false, None);

    assert_eq!(profile.name, "Work files");
    assert_eq!(profile.color_mode, ColorMode::System);
    assert!(profile.path.ends_with("work-files.toml"));

    let state = store.set_active_profile(&profile.path, None);
    assert_eq!(state.path, "/tmp/iron-file-test/user/config.toml");
    assert_eq!(state.state.active_profile, Some(profile.path.clone()));
    assert_eq!(iron_file::config::stored_active_profile(Some(state.state)), Some(profile.path));
}

#[test]
fn reads_and_writes_the_dynamic_context_menu_blur_kernel() {
    let kernel = ContextMenuBlurKernelSize::from_config_str("6sigma+1").unwrap();
    assert_eq!(kernel, ContextMenuBlurKernelSize::Dynamic);
    assert_eq!(kernel.effective_size(2), 13);
    assert_eq!(kernel.effective_size(5), 31);
    assert_eq!(kernel.config_value(), KernelSizeValue::Text("6sigma+1".into()));
}

#[test]
fn reads_the_legacy_context_menu_blur_as_strength() {
    let profile: toml::Table = toml::from_str(
        r##"
            [theme]
            light_highlight = "#111111"
            dark_highlight = "#222222"
            context_menu_blur = 14
        "##,
    )
    .unwrap();
    let table = profile["theme"].as_table().unwrap();
    let byte = |key: &str| table.get(key).map(|value| value.as_integer().unwrap() as u8);
    let theme = iron_file::config::theme_from_table(
        table["light_highlight"].as_str().unwrap().to_string(),
        table["dark_highlight"].as_str().unwrap().to_string(),
        byte("background_opacity"),
        byte("context_menu_blur_strength"),
        byte("context_menu_blur"),
        None,
        byte("border_radius"),
    )
    .unwrap();
    assert_eq!(theme.context_menu_blur_strength, 14);
    assert_eq!(theme.context_menu_blur_kernel_size, default_context_menu_blur_kernel_size());
}

#[test]
fn a_theme_table_giving_both_blur_keys_is_refused() {
    assert_eq!(
        iron_file::config::theme_from_table(
            "#111111".into(),
            "#222222".into(),
            None,
            Some(3),
            Some(14),
            None,
            None
        ),
        Err("duplicate field `context_menu_blur_strength`".to_string())
    );
    let theme = iron_file::config::theme_from_table(
        "#111111".into(),
        "#222222".into(),
        None,
        None,
        None,
        None,
        None,
    )
    .unwrap();
    assert_eq!(theme.context_menu_blur_strength, 2);
    assert_eq!(theme.background_opacity, 100);
    assert_eq!(theme.border_radius, 6);
}

#[test]
fn reads_legacy_context_menu_items_for_both_menus() {
    let mut browser = default_browser_settings();
    let expected = vec![ContextMenuItem::CopyLocation, ContextMenuItem::CreateFile];
    browser.legacy_context_menu_items = Some(expected.clone());
    browser.apply_legacy_context_menu_items();
    assert_eq!(browser.file_context_menu_items, expected);
    assert_eq!(browser.folder_context_menu_items, expected);
    assert_eq!(browser.legacy_context_menu_items, None);
}

#[test]
fn reads_quick_toolbar_items_in_configured_order() {
    let mut browser = default_browser_settings();
    browser.quick_toolbar_items = vec![
        QuickToolbarItem::ExtractSelection,
        QuickToolbarItem::ToggleHiddenFiles,
    ];
    let mut file = empty_file();
    file.browser = Some(browser);
    let profile = resolve_profile("/tmp/p.toml", file, None, false, None);
    assert_eq!(
        profile.browser.quick_toolbar_items,
        vec![QuickToolbarItem::ExtractSelection, QuickToolbarItem::ToggleHiddenFiles]
    );
}

#[test]
fn fixed_kernels_are_odd_sizes_from_three_to_thirty_one() {
    assert_eq!(
        ContextMenuBlurKernelSize::from_config_u64(9),
        Ok(ContextMenuBlurKernelSize::Fixed(9))
    );
    assert_eq!(
        ContextMenuBlurKernelSize::from_config_u64(8),
        Err("unsupported context menu blur kernel size: 8".into())
    );
    assert_eq!(
        ContextMenuBlurKernelSize::from_config_u64(300),
        Err("out of range integral type conversion attempted".into())
    );
    assert_eq!(
        ContextMenuBlurKernelSize::from_config_i64(-1),
        Err("out of range integral type conversion attempted".into())
    );
    assert_eq!(
        ContextMenuBlurKernelSize::from_config_str("abc"),
        Err("invalid digit found in string".into())
    );
    assert_eq!(
        ContextMenuBlurKernelSize::from_config_str(""),
        Err("cannot parse integer from empty string".into())
    );
    assert_eq!(
        ContextMenuBlurKernelSize::from_config_str("256"),
        Err("number too large to fit in target type".into())
    );
    assert_eq!(
        ContextMenuBlurKernelSize::fixed(31),
        Ok(ContextMenuBlurKernelSize::Fixed(31))
    );
}

#[test]
fn the_dynamic_kernel_follows_the_strength_within_bounds() {
    let dynamic = ContextMenuBlurKernelSize::Dynamic;
    assert_eq!(dynamic.effective_size(0), 3);
    assert_eq!(dynamic.effective_size(1), 7);
    assert_eq!(dynamic.effective_size(200), 31);
    assert_eq!(ContextMenuBlurKernelSize::Fixed(5).effective_size(200), 5);
}

#[test]
fn kernel_labels_and_options() {
    assert_eq!(ContextMenuBlurKernelSize::Fixed(7).label(), "7 x 7");
    assert_eq!(ContextMenuBlurKernelSize::Dynamic.label(), "6sigma + 1");
    let options = ContextMenuBlurKernelSize::options();
    assert_eq!(options.len(), 16);
    assert_eq!(options[0], ContextMenuBlurKernelSize::Fixed(3));
    assert_eq!(options[15], ContextMenuBlurKernelSize::Dynamic);
}

#[test]
fn kernel_values_read_back() {
    for kernel in ContextMenuBlurKernelSize::options() {
        let read = match kernel.config_value() {
            KernelSizeValue::Integer(size) => ContextMenuBlurKernelSize::from_config_u64(size as u64),
            KernelSizeValue::Text(text) => ContextMenuBlurKernelSize::from_config_str(&text),
        };
        assert_eq!(read, Ok(kernel));
    }
}

#[test]
fn search_paths_list_the_user_profiles_first() {
    assert_eq!(
        store().search_paths(),
        &["/tmp/iron-file-test/user/profiles".to_string(), "/etc/xdg/iron-file/profiles".to_string()]
    );
}

#[test]
fn profile_file_names_are_slugs() {
    assert_eq!(profile_filename("Work files"), Ok("work-files.toml".into()));
    assert_eq!(profile_filename("  Über / Main! "), Ok("ber---main.toml".into()));
    assert_eq!(
        profile_filename("???"),
        Err("Profile name must contain a letter or number".into())
    );
}

#[test]
fn blank_profile_names_are_refused() {
    assert_eq!(
        store().create_profile("   ", None, &vec![]).err(),
        Some("Profile name cannot be empty".into())
    );
    assert_eq!(
        ConfigStore::profile_exists_message("Work"),
        "A profile named Work already exists"
    );
}

#[test]
fn unnamed_profiles_are_named_after_their_file() {
    assert_eq!(profile_name_from_path("/etc/xdg/iron-file/profiles/shared.toml"), "shared");
    let profile = resolve_profile("/p/plain.toml", empty_file(), None, true, Some("/home/me"));
    assert_eq!(profile.name, "plain");
    assert!(profile.read_only);
    assert_eq!(profile.sidebar_locations, default_sidebar_locations(Some("/home/me")));
    assert_eq!(profile.theme, default_theme_settings());
}

#[test]
fn home_relative_paths_are_resolved() {
    let locations = default_sidebar_locations(Some("/home/me"));
    assert_eq!(
        locations,
        vec![
            SidebarLocation { label: "Home".into(), path: "/home/me/".into() },
            SidebarLocation { label: "Downloads".into(), path: "/home/me/Downloads".into() },
            SidebarLocation { label: "Pictures".into(), path: "/home/me/Pictures".into() },
        ]
    );
    let profile = resolve_profile("/p/a.toml", empty_file(), None, false, Some("/home/me"));
    assert_eq!(profile.browser.thumbnail_location, "~/.cache/iron-file/thumbnails");
    let mut file = empty_file();
    file.browser = Some(default_browser_settings());
    let profile = resolve_profile("/p/a.toml", file, None, false, Some("/home/me"));
    assert_eq!(profile.browser.thumbnail_location, "/home/me/.cache/iron-file/thumbnails");
}

#[test]
fn discovers_profiles_from_all_search_paths() {
    let paths = select_profile_paths(vec![
        "/u/profiles/personal.toml".into(),
        "/u/profiles/notes.txt".into(),
        "/s/profiles/shared.toml".into(),
        "/u/profiles/personal.toml".into(),
    ]);
    assert_eq!(
        paths,
        vec!["/u/profiles/personal.toml".to_string(), "/s/profiles/shared.toml".to_string()]
    );
}

#[test]
fn profiles_are_sorted_by_name_ignoring_case() {
    let named = |name: &str| {
        let mut file = empty_file();
        file.name = Some(name.into());
        resolve_profile("/p/x.toml", file, None, false, None)
    };
    let sorted = sort_profiles(vec![named("shared"), named("Personal"), named("alpha")]);
    let names: Vec<String> = sorted.into_iter().map(|p| p.name).collect();
    assert_eq!(names, vec!["alpha", "Personal", "shared"]);
}

#[test]
fn saves_changes_to_a_writable_profile() {
    let store = store();
    let write = store.create_profile("Editable", None, &vec![]).unwrap();
    let profile = resolve_profile(&write.path, write.file.clone(), None, false, None);
    let saved = store.save_color_mode(&profile, ColorMode::Day, Some(write.file.clone()));
    assert_eq!(saved.path, profile.path);
    assert_eq!(saved.file.color_mode, Some(ColorMode::Day));
    let read_back = resolve_profile(&saved.path, saved.file, None, false, None);
    assert_eq!(read_back.color_mode, ColorMode::Day);
    assert_eq!(read_back.name, "Editable");
}

#[test]
fn saves_sidebar_locations_in_their_selected_order() {
    let store = store();
    let write = store.create_profile("Sidebar", None, &vec![]).unwrap();
    let profile = resolve_profile(&write.path, write.file.clone(), None, false, None);
    let locations = vec![
        SidebarLocation { label: "Projects".into(), path: "/tmp/projects".into() },
        SidebarLocation { label: "Archive".into(), path: "/tmp/archive".into() },
    ];
    let saved = store.save_sidebar_locations(&profile, locations.clone(), Some(write.file));
    let read_back = resolve_profile(&saved.path, saved.file, None, false, None);
    assert_eq!(read_back.sidebar_locations, locations);
}

#[test]
fn resets_a_profile_from_the_repository_default() {
    let store = store();
    let write = store.create_profile("Resettable", None, &vec![]).unwrap();
    let mut file = write.file.clone();
    file.sidebar_locations = Some(vec![SidebarLocation { label: "Other".into(), path: "/tmp/other".into() }]);
    file.color_mode = Some(ColorMode::Night);
    let profile = resolve_profile(&write.path, file.clone(), None, false, None);
    let reset = store.reset_profile(&profile, Some(file), None);
    let read_back = resolve_profile(&reset.path, reset.file, None, false, None);
    assert_eq!(read_back.color_mode, ColorMode::System);
    assert_eq!(read_back.sidebar_locations, default_sidebar_locations(None));
    assert_eq!(read_back.name, "Resettable");
}

#[test]
fn editing_a_read_only_profile_creates_an_overlay() {
    let store = store();
    let mut file = empty_file();
    file.name = Some("Locked".into());
    file.color_mode = Some(ColorMode::Day);
    let source = resolve_profile("/etc/xdg/iron-file/profiles/locked.toml", file, None, true, None);
    let write = store.save_color_mode(&source, ColorMode::Night, None);
    assert_ne!(write.path, source.path);
    assert!(write.path.starts_with("/tmp/iron-file-test/user/profiles/locked-override-"));
    assert!(write.path.ends_with(".toml"));
    assert_eq!(write.path, store.overlay_path(&source.path));
    assert_eq!(write.file.base_profile, Some(source.path.clone()));
    let overlay = resolve_profile(&write.path, write.file, Some(source.clone()), false, None);
    assert_eq!(overlay.name, "Locked");
    assert_eq!(overlay.color_mode, ColorMode::Night);
    assert_eq!(overlay.theme, source.theme);
}

#[test]
fn the_last_picker_folder_is_remembered_beside_the_active_profile() {
    let store = store();
    let remembered = store.remember_picker_directory("/home/me/Documents", None);
    assert_eq!(remembered.state.last_picker_directory, Some("/home/me/Documents".into()));
    assert_eq!(remembered.state.active_profile, None);
    let switched = store.set_active_profile("/p/work.toml", Some(remembered.state));
    assert_eq!(switched.state.active_profile, Some("/p/work.toml".into()));
    assert_eq!(switched.state.last_picker_directory, Some("/home/me/Documents".into()));
    let again = store.remember_picker_directory("/srv", Some(switched.state));
    assert_eq!(again.state.active_profile, Some("/p/work.toml".into()));
    assert_eq!(again.state.last_picker_directory, Some("/srv".into()));
}

#[test]
fn saves_theme_settings_to_a_profile() {
    let store = store();
    let write = store.create_profile("Accent", None, &vec![]).unwrap();
    let profile = resolve_profile(&write.path, write.file.clone(), None, false, None);
    let theme = iron_file::config::ThemeSettings {
        light_highlight: "#112233".into(),
        dark_highlight: "#445566".into(),
        background_opacity: 75,
        context_menu_blur_strength: 3,
        context_menu_blur_kernel_size: ContextMenuBlurKernelSize::Fixed(7),
        border_radius: 4,
    };
    let saved = store.save_theme_settings(&profile, theme.clone(), Some(write.file));
    assert_eq!(saved.path, profile.path);
    assert_eq!(saved.file.theme.as_ref().unwrap().light_highlight, "#112233");
    let read_back = resolve_profile(&saved.path, saved.file, None, false, None);
    assert_eq!(read_back.theme, theme);
}

#[test]
fn saves_browser_click_mode() {
    let store = store();
    let write = store.create_profile("Click mode", None, &vec![]).unwrap();
    let profile = resolve_profile(&write.path, write.file.clone(), None, false, None);
    let mut browser = profile.browser.clone();
    browser.single_click_opens_folders = true;
    browser.terminal_command = "foot".into();
    browser.sidebar_width = 240;
    browser.icon_theme = "Papirus-Dark".into();
    browser.thumbnail_location = "/tmp/iron-file-thumbnails".into();

    let saved = store.save_browser_settings(&profile, browser, Some(write.file));
    let read_back = resolve_profile(&saved.path, saved.file, None, false, None);

    assert!(read_back.browser.single_click_opens_folders);
    assert_eq!(read_back.browser.terminal_command, "foot");
    assert_eq!(read_back.browser.sidebar_width, 240);
    assert_eq!(read_back.browser.icon_theme, "Papirus-Dark");
    assert_eq!(read_back.browser.thumbnail_location, "/tmp/iron-file-thumbnails");
}

#[test]
fn a_default_profile_is_made_when_there_is_none() {
    let store = store();
    let write = store.first_run_profile(&vec![], None, &vec![]).unwrap();
    assert_eq!(write.path, "/tmp/iron-file-test/user/profiles/default.toml");
    let profile = resolve_profile(&write.path, write.file, None, false, None);
    assert_eq!(profile.name, "Default");
    assert!(store.first_run_profile(&vec![profile], None, &vec![]).is_none());
}

#[test]
fn creating_a_profile_whose_file_exists_is_refused() {
    let store = store();
    let existing = vec!["/tmp/iron-file-test/user/profiles/work-files.toml".to_string()];
    assert_eq!(
        store.create_profile("  Work files ", None, &existing).err(),
        Some("A profile named Work files already exists".to_string())
    );
    assert!(store.create_profile("Other", None, &existing).is_ok());
    assert!(store.first_run_profile(
        &vec![],
        None,
        &vec!["/tmp/iron-file-test/user/profiles/default.toml".to_string()]
    )
    .is_none());
}

#[test]
fn the_active_profile_reads_back_while_its_file_exists() {
    let store = store();
    let written = store.set_active_profile("/p/work.toml", None);
    assert_eq!(
        iron_file::config::active_profile_of(Some(written.state.clone()), true),
        Some("/p/work.toml".to_string())
    );
    assert_eq!(iron_file::config::active_profile_of(Some(written.state), false), None);
    assert_eq!(iron_file::config::active_profile_of(None, true), None);
}

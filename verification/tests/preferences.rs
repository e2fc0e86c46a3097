use iron_file::preferences::profiles_after_save;
use iron_file::preferences::initial_active_profile;
use iron_file::config::{
    default_browser_settings, default_theme_settings, resolve_profile, BrowserLayout, ColorMode,
    ProfileFile,
};
use iron_file::preferences::{
    active_profile_index, active_settings, parse_hex_color, preference_matches_default, reset_preference,
    PreferenceOption, PreferenceReset,
};

fn profile(path: &str) -> iron_file::config::Profile {
    let file = ProfileFile {
        name: None,
        color_mode: None,
        sidebar_locations: None,
        theme: None,
        browser: None,
        base_profile: None,
    };
    resolve_profile(path, file, None, false, None)
}

#[test]
fn defaults_match_their_preferences() {
    let theme = default_theme_settings();
    let browser = default_browser_settings();
    assert!(preference_matches_default(PreferenceOption::ColorMode, ColorMode::System, &theme, &browser, None));
    assert!(!preference_matches_default(PreferenceOption::ColorMode, ColorMode::Night, &theme, &browser, None));
    assert!(preference_matches_default(PreferenceOption::KeyboardShortcuts, ColorMode::System, &theme, &browser, None));
    assert!(preference_matches_default(PreferenceOption::FileContextMenuItems, ColorMode::System, &theme, &browser, None));
    assert!(!preference_matches_default(
        PreferenceOption::ThumbnailLocation,
        ColorMode::System,
        &theme,
        &browser,
        Some("/home/me")
    ));
}

#[test]
fn the_default_thumbnail_location_is_compared_in_the_home_folder() {
    let theme = default_theme_settings();
    let mut browser = default_browser_settings();
    browser.thumbnail_location = "/home/me/.cache/iron-file/thumbnails".into();
    assert!(preference_matches_default(
        PreferenceOption::ThumbnailLocation,
        ColorMode::System,
        &theme,
        &browser,
        Some("/home/me")
    ));
}

#[test]
fn resetting_a_preference_restores_only_that_preference() {
    let mut theme = default_theme_settings();
    theme.border_radius = 12;
    theme.background_opacity = 50;
    let browser = default_browser_settings();
    let PreferenceReset::Theme(reset) = reset_preference(PreferenceOption::BorderRadius, theme, browser.clone()) else {
        panic!("expected theme settings");
    };
    assert_eq!(reset.border_radius, 6);
    assert_eq!(reset.background_opacity, 50);

    let mut browser = default_browser_settings();
    browser.layout = BrowserLayout::Tiles;
    browser.item_size = 48;
    let PreferenceReset::Browser(reset) = reset_preference(PreferenceOption::Layout, default_theme_settings(), browser) else {
        panic!("expected browser settings");
    };
    assert_eq!(reset.layout, BrowserLayout::List);
    assert_eq!(reset.item_size, 48);
    assert_eq!(
        reset_preference(PreferenceOption::ColorMode, default_theme_settings(), default_browser_settings()),
        PreferenceReset::ColorMode(ColorMode::System)
    );
}

#[test]
fn changes_are_saved_to_the_active_profile() {
    let profiles = vec![profile("/p/a.toml"), profile("/p/b.toml")];
    assert_eq!(active_profile_index(Some("/p//b.toml"), &profiles), Ok(1));
    assert_eq!(
        active_profile_index(Some("/p/c.toml"), &profiles),
        Err("The active configuration profile is unavailable".into())
    );
    assert_eq!(
        active_profile_index(None, &profiles),
        Err("No active configuration profile".into())
    );
}

#[test]
fn accent_colors_are_six_hex_digits() {
    assert_eq!(parse_hex_color("#4f7cac"), Some((0x4f, 0x7c, 0xac)));
    assert_eq!(parse_hex_color("#FFFFFF"), Some((255, 255, 255)));
    assert_eq!(parse_hex_color("#+f+f+f"), Some((15, 15, 15)));
    assert_eq!(parse_hex_color("4f7cac"), None);
    assert_eq!(parse_hex_color("#4f7ca"), None);
    assert_eq!(parse_hex_color("#4g7cac"), None);
}

#[test]
fn the_active_profile_supplies_the_settings_in_effect() {

    let mut chosen = profile("/p/b.toml");
    chosen.theme.border_radius = 11;
    let profiles = vec![profile("/p/a.toml"), chosen];
    let settings = active_settings(Some("/p/b.toml"), profiles.clone());
    assert_eq!(settings.theme.border_radius, 11);
    assert_eq!(settings.sidebar_locations, profiles[1].sidebar_locations);
    let fallback = active_settings(None, profiles.clone());
    assert_eq!(fallback.theme, default_theme_settings());
    assert_eq!(fallback.browser, default_browser_settings());
    assert!(fallback.sidebar_locations.is_empty());
    let missing = active_settings(Some("/p/z.toml"), profiles);
    assert_eq!(missing.theme, default_theme_settings());
}

#[test]
fn the_stored_active_profile_is_kept_only_if_it_exists() {
    let profiles = vec![profile("/p/a.toml"), profile("/p/b.toml")];
    assert_eq!(initial_active_profile(Some("/p/b.toml".into()), &profiles), Some("/p/b.toml".into()));
    assert_eq!(initial_active_profile(Some("/p/z.toml".into()), &profiles), Some("/p/a.toml".into()));
    assert_eq!(initial_active_profile(None, &profiles), Some("/p/a.toml".into()));
    assert_eq!(initial_active_profile(None, &vec![]), None);
}

#[test]
fn a_saved_profile_replaces_its_old_version_or_joins_in_name_order() {
    let mut first = profile("/p/b.toml");
    first.name = "beta".into();
    let mut second = profile("/p/a.toml");
    second.name = "alpha".into();
    let mut updated = profile("/p//b.toml");
    updated.name = "beta".into();
    updated.color_mode = ColorMode::Night;
    let after = profiles_after_save(vec![first.clone(), second.clone()], updated.clone());
    assert_eq!(after, vec![updated, second.clone()]);

    let mut new = profile("/p/c.toml");
    new.name = "Zed".into();
    let after = profiles_after_save(vec![first.clone(), second.clone()], new.clone());
    let names: Vec<String> = after.into_iter().map(|p| p.name).collect();
    assert_eq!(names, vec!["Zed".to_string(), "alpha".to_string(), "beta".to_string()]);
}

//! The portable settings file.

use alttabio::settings::{IconColor, Settings, SettingsDocument, Theme};

#[test]
fn missing_values_use_the_established_product_defaults() {
    let settings = SettingsDocument::parse("").settings();

    assert_eq!(settings, Settings::default());
    assert_eq!(settings.appearance.icon, IconColor::Azure);
    assert!(settings.appearance.compact_list);
    assert!(!settings.appearance.show_app_names);
    assert!(!settings.appearance.visible_borders);
    assert!(!settings.appearance.full_desktop_preview);
    assert!(settings.general.typed_search);
}

#[test]
fn explicitly_disabled_typed_search_remains_disabled() {
    let document = SettingsDocument::parse(
        "[General]\nTypedSearch=false\nFutureSetting=keep\n[Plugin]\nMode=Fast\n",
    );
    let settings = document.settings();

    assert!(!settings.general.typed_search);
    let rendered = document.render(&settings);
    assert!(rendered.contains("TypedSearch=false"));
    assert!(rendered.contains("[General]\nFutureSetting=keep"));
    assert!(rendered.contains("[Plugin]\nMode=Fast"));
}

#[test]
fn known_values_are_case_insensitive_and_invalid_booleans_use_defaults() {
    let document = SettingsDocument::parse(
        "[general]\nreplacealttab=FALSE\nReplaceWinTab=not-a-bool\nTypedSearch=TRUE\n\
         [appearance]\nicon=Orchid\ntheme=Dark\nCompactList=false\nShowAppNames=true\n\
         VisibleBorders=false\nFullDesktopPreview=true\n",
    );
    let settings = document.settings();

    assert!(!settings.general.replace_alt_tab);
    assert!(settings.general.replace_win_tab);
    assert!(settings.general.typed_search);
    assert_eq!(settings.appearance.icon, IconColor::Orchid);
    assert_eq!(settings.appearance.theme, Theme::Dark);
    assert!(!settings.appearance.compact_list);
    assert!(settings.appearance.show_app_names);
    assert!(!settings.appearance.visible_borders);
    assert!(settings.appearance.full_desktop_preview);
}

#[test]
fn rendering_preserves_unknown_values_but_rewrites_known_values() {
    let document = SettingsDocument::parse(
        "[General]\nReplaceAltTab=false\nTypedSearch=false\nFutureSetting=keep\n\
         [Plugin]\nMode=Fast\n",
    );
    let mut settings = document.settings();
    settings.general.replace_alt_tab = true;
    settings.general.typed_search = true;
    settings.appearance.icon = IconColor::Violet;
    settings.appearance.compact_list = false;
    settings.appearance.show_app_names = true;
    settings.appearance.visible_borders = false;
    let rendered = document.render(&settings);

    assert!(rendered.contains("ReplaceAltTab=true"));
    assert!(rendered.contains("TypedSearch=true"));
    assert!(rendered.contains("Icon=Violet"));
    assert!(rendered.contains("CompactList=false"));
    assert!(rendered.contains("ShowAppNames=true"));
    assert!(rendered.contains("VisibleBorders=false"));
    assert!(rendered.contains("[General]\nFutureSetting=keep"));
    assert!(rendered.contains("[Plugin]\nMode=Fast"));
    assert_eq!(rendered.matches("ReplaceAltTab=").count(), 1);
    assert_eq!(rendered.matches("TypedSearch=").count(), 1);
}

#[test]
fn later_duplicate_value_wins_like_the_existing_store() {
    let document =
        SettingsDocument::parse("[General]\nReplaceAltTab=true\nReplaceAltTab=false\n");

    assert!(!document.settings().general.replace_alt_tab);
}

#[test]
fn established_user_settings_round_trip_without_changes() {
    let contents = "[General]\nAutostart=true\nReplaceAltTab=true\nReplaceWinTab=true\n\
                    TypedSearch=true\nReleaseAltSwitches=true\nReleaseRmbSwitches=true\n\
                    RmbWheelSwitching=true\nMouseOverSelection=true\n\n[Appearance]\n\
                    Icon=Azure\nTheme=Auto\nCompactList=true\nLargeIcons=true\nShowNumbers=true\n\
                    ShowAppNames=false\nVisibleBorders=false\nPreview=true\n\
                    FullDesktopPreview=true\n\n[Monitor]\nMode=CurrentByCursor\n\
                    UseCurrentMonitorFilter=false\n";
    let document = SettingsDocument::parse(contents);

    assert_eq!(document.render(&document.settings()), contents);
}

#[test]
fn theme_parsing_is_case_insensitive_and_invalid_values_use_auto() {
    for (value, expected) in [
        ("Auto", Theme::Auto),
        ("LIGHT", Theme::Light),
        ("dark", Theme::Dark),
        ("unsupported", Theme::Auto),
        ("", Theme::Auto),
    ] {
        let document = SettingsDocument::parse(&format!("[Appearance]\nTheme={value}\n"));

        assert_eq!(document.settings().appearance.theme, expected);
    }
}

#[test]
fn icon_parsing_is_case_insensitive_and_invalid_values_use_azure() {
    for (value, expected) in [
        ("Azure", IconColor::Azure),
        ("COPPER", IconColor::Copper),
        ("ember", IconColor::Ember),
        ("Indigo", IconColor::Indigo),
        ("orchid", IconColor::Orchid),
        ("Rosewood", IconColor::Rosewood),
        ("vermilion", IconColor::Vermilion),
        ("Violet", IconColor::Violet),
        ("unsupported", IconColor::Azure),
        ("", IconColor::Azure),
    ] {
        let document = SettingsDocument::parse(&format!("[Appearance]\nIcon={value}\n"));

        assert_eq!(document.settings().appearance.icon, expected);
    }
}

#[test]
fn supported_icons_are_persisted_with_canonical_names() {
    let document = SettingsDocument::parse("[Appearance]\nIcon=orchid\n");

    for icon in IconColor::ALL {
        let mut settings = document.settings();
        settings.appearance.icon = icon;

        assert!(
            document
                .render(&settings)
                .contains(&format!("Icon={}", icon.as_ini_value()))
        );
    }
}

#[test]
fn supported_themes_are_persisted_with_canonical_names() {
    let document = SettingsDocument::parse("[Appearance]\nTheme=dark\n");

    for (theme, expected) in [
        (Theme::Auto, "Theme=Auto"),
        (Theme::Light, "Theme=Light"),
        (Theme::Dark, "Theme=Dark"),
    ] {
        let mut settings = document.settings();
        settings.appearance.theme = theme;

        assert!(document.render(&settings).contains(expected));
    }
}

#[test]
fn comments_blank_lines_and_keyless_lines_are_skipped() {
    let document = SettingsDocument::parse(
        "; comment\n# another\n\n[General]\n  =true\nno equals sign\n  TypedSearch = false  \r\n",
    );

    assert!(!document.settings().general.typed_search);
    assert_eq!(
        document.render(&document.settings()),
        document.render(&SettingsDocument::parse("[General]\nTypedSearch=false\n").settings())
    );
}

#[test]
fn entries_before_any_section_are_kept_without_a_header() {
    let document = SettingsDocument::parse("Loose=1\n[Plugin]\nMode=Fast\n[plugin]\nLevel=2\n");
    let rendered = document.render(&Settings::default());

    assert!(rendered.ends_with(
        "UseCurrentMonitorFilter=false\n\nLoose=1\n\n[Plugin]\nMode=Fast\nLevel=2\n"
    ));
}

#[test]
fn an_empty_monitor_mode_falls_back_to_the_default() {
    let document = SettingsDocument::parse("[Monitor]\nMode=\nUseCurrentMonitorFilter=TRUE\n");
    let settings = document.settings();

    assert_eq!(settings.monitor.monitor_mode, "CurrentByCursor");
    assert!(settings.monitor.use_current_monitor_filter);
}

#[test]
fn a_parsed_icon_and_theme_name_is_written_back_in_canonical_case() {
    assert_eq!(IconColor::parse("ROSEWOOD"), IconColor::Rosewood);
    assert_eq!(IconColor::parse("Rosewood").as_ini_value(), "Rosewood");
    assert_eq!(Theme::parse("LiGhT"), Theme::Light);
    assert_eq!(Theme::Dark.as_ini_value(), "Dark");
    assert_eq!(IconColor::default(), IconColor::Azure);
    assert_eq!(Theme::default(), Theme::Auto);
}

#[test]
fn a_read_file_written_with_new_settings_reads_back_both() {
    let document = SettingsDocument::parse(
        "[plugin]\n  Mode = Fast \n[General]\nTypedSearch=false\nExtra=[x\n[PLUGIN]\nmode=Slow\n",
    );
    let mut settings = document.settings();
    assert!(!settings.general.typed_search);
    settings.general.typed_search = true;
    settings.appearance.icon = IconColor::Violet;
    let written = document.render(&settings);
    assert!(written.contains("mode=Slow"));
    assert!(!written.contains("Fast"));
    assert!(written.contains("Extra=[x"));
    let again = SettingsDocument::parse(&written);
    assert_eq!(again.settings(), settings);
    assert_eq!(again.render(&settings), written);
}

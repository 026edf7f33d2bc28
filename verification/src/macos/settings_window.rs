//! The checkboxes of the macOS settings window and the settings each one edits.

use crate::settings::{
    AppearanceSettings, GeneralSettings, MonitorView, Settings, SettingsView, Theme,
};
use vstd::prelude::*;

verus! {

/// A setting that the settings window shows as a checkbox.
#[derive(Clone, Copy, Debug, PartialEq, Eq, Structural)]
pub enum SettingKey {
    Autostart,
    CommandTab,
    OptionTab,
    CurrentDisplayOnly,
    Preview,
}

/// The checkbox tag of `key`: its place in `SettingKey::ALL`.
pub open spec fn key_tag(key: SettingKey) -> int {
    match key {
        SettingKey::Autostart => 0,
        SettingKey::CommandTab => 1,
        SettingKey::OptionTab => 2,
        SettingKey::CurrentDisplayOnly => 3,
        SettingKey::Preview => 4,
    }
}

/// The flag of `settings` that the checkbox of `key` shows.
pub open spec fn setting_flag(key: SettingKey, settings: SettingsView) -> bool {
    match key {
        SettingKey::Autostart => settings.general.autostart,
        SettingKey::CommandTab => settings.general.replace_alt_tab,
        SettingKey::OptionTab => settings.general.replace_win_tab,
        SettingKey::CurrentDisplayOnly => settings.monitor.use_current_monitor_filter,
        SettingKey::Preview => settings.appearance.preview,
    }
}

/// `kept`, or `value` where `key` is `own`.
pub open spec fn flag_after(key: SettingKey, own: SettingKey, kept: bool, value: bool) -> bool {
    if key == own {
        value
    } else {
        kept
    }
}

/// The `[General]` flags with the flag of `key` set to `value`, where it is one of them.
pub open spec fn general_with_flag(
    key: SettingKey,
    general: GeneralSettings,
    value: bool,
) -> GeneralSettings {
    GeneralSettings {
        autostart: flag_after(key, SettingKey::Autostart, general.autostart, value),
        replace_alt_tab: flag_after(key, SettingKey::CommandTab, general.replace_alt_tab, value),
        replace_win_tab: flag_after(key, SettingKey::OptionTab, general.replace_win_tab, value),
        ..general
    }
}

/// The `[Appearance]` flags with the flag of `key` set to `value`, where it is one of them.
pub open spec fn appearance_with_flag(
    key: SettingKey,
    appearance: AppearanceSettings,
    value: bool,
) -> AppearanceSettings {
    AppearanceSettings {
        preview: flag_after(key, SettingKey::Preview, appearance.preview, value),
        ..appearance
    }
}

/// `after` is `before` with the flag of `key` set to `value`, as `SettingKey::set` leaves it.
pub open spec fn flag_set(
    key: SettingKey,
    before: SettingsView,
    after: SettingsView,
    value: bool,
) -> bool {
    &&& after.general == general_with_flag(key, before.general, value)
    &&& after.appearance == appearance_with_flag(key, before.appearance, value)
    &&& after.monitor.use_current_monitor_filter == flag_after(
        key,
        SettingKey::CurrentDisplayOnly,
        before.monitor.use_current_monitor_filter,
        value,
    )
    &&& after.monitor.monitor_mode == before.monitor.monitor_mode
}

impl SettingKey {
    /// Every key once; the index doubles as the checkbox tag.
    pub const ALL: [SettingKey; 5] = [
        SettingKey::Autostart,
        SettingKey::CommandTab,
        SettingKey::OptionTab,
        SettingKey::CurrentDisplayOnly,
        SettingKey::Preview,
    ];

    /// The text beside the checkbox.
    pub open spec fn spec_label(self) -> Seq<char> {
        match self {
            SettingKey::Autostart => "Launch at login"@,
            SettingKey::CommandTab => "Replace ⌘ Tab"@,
            SettingKey::OptionTab => "Also open with ⌥ Tab"@,
            SettingKey::CurrentDisplayOnly => "Only windows on the current display"@,
            SettingKey::Preview => "Show window previews"@,
        }
    }

    /// The text beside the checkbox.
    pub fn label(self) -> (label: &'static str)
        ensures
            label@ == self.spec_label(),
    {
        match self {
            SettingKey::Autostart => "Launch at login",
            SettingKey::CommandTab => "Replace ⌘ Tab",
            SettingKey::OptionTab => "Also open with ⌥ Tab",
            SettingKey::CurrentDisplayOnly => "Only windows on the current display",
            SettingKey::Preview => "Show window previews",
        }
    }

    /// The tag of the key's checkbox.
    pub fn tag(self) -> (tag: isize)
        ensures
            tag == key_tag(self),
    {
        match self {
            SettingKey::Autostart => 0,
            SettingKey::CommandTab => 1,
            SettingKey::OptionTab => 2,
            SettingKey::CurrentDisplayOnly => 3,
            SettingKey::Preview => 4,
        }
    }

    /// The key whose checkbox carries `tag`, if any does.
    pub fn from_tag(tag: isize) -> (key: Option<SettingKey>)
        ensures
            match key {
                Some(key) => key_tag(key) == tag,
                None => tag < 0 || tag > 4,
            },
    {
        if tag < 0 || tag > 4 {
            return None;
        }
        let all = Self::ALL;
        let key = all[tag as usize];
        Some(key)
    }

    /// Whether the key's setting is on in `settings`.
    pub fn get(self, settings: &Settings) -> (flag: bool)
        ensures
            flag == setting_flag(self, settings@),
    {
        match self {
            SettingKey::Autostart => settings.general.autostart,
            SettingKey::CommandTab => settings.general.replace_alt_tab,
            SettingKey::OptionTab => settings.general.replace_win_tab,
            SettingKey::CurrentDisplayOnly => settings.monitor.use_current_monitor_filter,
            SettingKey::Preview => settings.appearance.preview,
        }
    }

    /// Turns the key's setting on or off in `settings`.
    #[verifier::spinoff_prover]
    #[verifier::rlimit(40)]
    pub fn set(self, settings: &mut Settings, value: bool)
        ensures
            final(settings).general == general_with_flag(self, old(settings).general, value),
            final(settings).appearance == appearance_with_flag(self, old(settings).appearance, value),
            final(settings).monitor.use_current_monitor_filter == flag_after(
                self,
                SettingKey::CurrentDisplayOnly,
                old(settings).monitor.use_current_monitor_filter,
                value,
            ),
            final(settings).monitor.monitor_mode == old(settings).monitor.monitor_mode,
    {
        match self {
            SettingKey::Autostart => settings.general.autostart = value,
            SettingKey::CommandTab => settings.general.replace_alt_tab = value,
            SettingKey::OptionTab => settings.general.replace_win_tab = value,
            SettingKey::CurrentDisplayOnly => settings.monitor.use_current_monitor_filter = value,
            SettingKey::Preview => settings.appearance.preview = value,
        }
    }
}

/// A checkbox's tag finds its key again.
pub proof fn law_tag_round_trip(key: SettingKey)
    ensures
        0 <= key_tag(key) <= 4,
        forall|other: SettingKey| key_tag(other) == key_tag(key) ==> other == key,
{
}

/// Setting a checkbox's flag changes that flag to the value set and no other flag of the window.
pub proof fn law_set_then_get(
    key: SettingKey,
    other: SettingKey,
    before: SettingsView,
    after: SettingsView,
    value: bool,
)
    requires
        flag_set(key, before, after, value),
    ensures
        setting_flag(key, after) == value,
        other != key ==> setting_flag(other, after) == setting_flag(other, before),
{
}


/// The place of `theme` in the theme menu: Auto, Light, Dark.
pub open spec fn theme_place(theme: Theme) -> isize {
    match theme {
        Theme::Auto => 0,
        Theme::Light => 1,
        Theme::Dark => 2,
    }
}

/// The place of `theme` in the theme menu.
pub fn theme_index(theme: Theme) -> (index: isize)
    ensures
        index == theme_place(theme),
{
    match theme {
        Theme::Auto => 0,
        Theme::Light => 1,
        Theme::Dark => 2,
    }
}

/// The theme chosen at place `index` of the theme menu; any other place, as when nothing is
/// chosen, means Auto.
pub fn theme_at_index(index: isize) -> (theme: Theme)
    ensures
        theme == if index == 1 {
            Theme::Light
        } else if index == 2 {
            Theme::Dark
        } else {
            Theme::Auto
        },
{
    if index == 1 {
        Theme::Light
    } else if index == 2 {
        Theme::Dark
    } else {
        Theme::Auto
    }
}

/// The theme menu shows each theme at a place of its own, and choosing that place gives the theme
/// back.
pub proof fn law_theme_menu_round_trip(theme: Theme, other: Theme)
    ensures
        (theme_place(theme) == theme_place(other)) == (theme == other),
        (if theme_place(theme) == 1 {
            Theme::Light
        } else if theme_place(theme) == 2 {
            Theme::Dark
        } else {
            Theme::Auto
        }) == theme,
{
}

} // verus!

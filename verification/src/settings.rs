//! Portable INI settings stored next to the executable.

use crate::text::{
    ascii_case_eq, ascii_case_equal, ascii_folded, chars_of, find_char, is_trimmed, is_white_space,
    lemma_ascii_case_equivalence, lemma_trim_facts, lemma_trim_trimmed, trim, trim_range,
};
use vstd::prelude::*;
use vstd::string::*;

verus! {

/// One `key=value` line of the settings file and the section it stands in.
#[derive(Clone, Debug, PartialEq, Eq)]
struct Entry {
    section: String,
    key: String,
    value: String,
}

/// An entry as the contracts speak of it.
pub struct EntryView {
    pub section: Seq<char>,
    pub key: Seq<char>,
    pub value: Seq<char>,
}

impl View for Entry {
    type V = EntryView;

    closed spec fn view(&self) -> EntryView {
        EntryView { section: self.section@, key: self.key@, value: self.value@ }
    }
}

spec fn entry_views(entries: Seq<Entry>) -> Seq<EntryView> {
    entries.map_values(|entry: Entry| entry@)
}

/// The settings file as read: its entries in file order, each section and key once.
#[derive(Clone, Debug, PartialEq, Eq)]
pub struct SettingsDocument {
    entries: Vec<Entry>,
}

impl View for SettingsDocument {
    type V = Seq<EntryView>;

    closed spec fn view(&self) -> Seq<EntryView> {
        entry_views(self.entries@)
    }
}

/// Whether `entry` stands under `section` and `key`, ignoring ASCII case in both.
pub open spec fn names(entry: EntryView, section: Seq<char>, key: Seq<char>) -> bool {
    ascii_case_equal(entry.section, section) && ascii_case_equal(entry.key, key)
}

/// The first entry at or after `from` under `section` and `key`.
pub open spec fn entry_index_from(
    entries: Seq<EntryView>,
    section: Seq<char>,
    key: Seq<char>,
    from: int,
) -> Option<int>
    decreases entries.len() - from,
{
    if from < 0 || from >= entries.len() {
        None
    } else if names(entries[from], section, key) {
        Some(from)
    } else {
        entry_index_from(entries, section, key, from + 1)
    }
}

/// The first entry under `section` and `key`.
pub open spec fn entry_index(entries: Seq<EntryView>, section: Seq<char>, key: Seq<char>) -> Option<
    int,
> {
    entry_index_from(entries, section, key, 0)
}

/// `entries` with `entry` in the place of the one under its section and key, or added last.
pub open spec fn upserted(entries: Seq<EntryView>, entry: EntryView) -> Seq<EntryView> {
    match entry_index(entries, entry.section, entry.key) {
        Some(index) => entries.update(index, entry),
        None => entries.push(entry),
    }
}

/// What reading one line does to the entries and the current section.
pub open spec fn parsed_line(state: (Seq<EntryView>, Seq<char>), line: Seq<char>) -> (
    Seq<EntryView>,
    Seq<char>,
) {
    let text = trim(line);
    if text.len() == 0 || text[0] == ';' || text[0] == '#' {
        state
    } else if text.len() >= 2 && text[0] == '[' && text.last() == ']' {
        (state.0, trim(text.subrange(1, text.len() - 1)))
    } else {
        match text.index_of_first('=') {
            None => state,
            Some(equals) => {
                let key = trim(text.take(equals));
                if key.len() == 0 {
                    state
                } else {
                    (
                        upserted(
                            state.0,
                            EntryView { section: state.1, key, value: trim(text.skip(equals + 1)) },
                        ),
                        state.1,
                    )
                }
            },
        }
    }
}

/// Reads `text` line by line from `state`; lines end at each newline.
pub open spec fn parsed_from(text: Seq<char>, state: (Seq<EntryView>, Seq<char>)) -> (
    Seq<EntryView>,
    Seq<char>,
)
    decreases text.len(),
{
    match text.index_of_first('\n') {
        None => parsed_line(state, text),
        Some(newline) => {
            proof {
                crate::seq_util::lemma_index_of_first_facts(text, '\n');
            }
            parsed_from(text.skip(newline + 1), parsed_line(state, text.take(newline)))
        },
    }
}

/// The entries of a settings file: comments and lines without a key are skipped, a later value
/// replaces an earlier one under the same section and key.
pub open spec fn parsed_entries(contents: Seq<char>) -> Seq<EntryView> {
    parsed_from(contents, (Seq::empty(), Seq::empty())).0
}

fn find_entry(entries: &Vec<Entry>, section: &str, key: &str) -> (found: Option<usize>)
    ensures
        match found {
            Some(index) => index < entries@.len() && entry_index(entry_views(entries@), section@, key@)
                == Some(index as int),
            None => entry_index(entry_views(entries@), section@, key@) is None,
        },
{
    let ghost views = entry_views(entries@);
    let mut index: usize = 0;
    while index < entries.len()
        invariant
            index <= entries.len(),
            views == entry_views(entries@),
            entry_index_from(views, section@, key@, index as int) == entry_index(
                views,
                section@,
                key@,
            ),
        decreases entries.len() - index,
    {
        if ascii_case_eq(entries[index].section.as_str(), section) && ascii_case_eq(
            entries[index].key.as_str(),
            key,
        ) {
            return Some(index);
        }
        index = index + 1;
    }
    None
}

fn upsert(entries: &mut Vec<Entry>, entry: Entry)
    ensures
        entry_views(final(entries)@) == upserted(entry_views(old(entries)@), entry@),
{
    let ghost before = entry_views(entries@);
    match find_entry(entries, entry.section.as_str(), entry.key.as_str()) {
        Some(index) => {
            let _previous = entries.remove(index);
            entries.insert(index, entry);
            proof {
                assert(entry_views(entries@) =~= before.update(index as int, entry@));
            }
        },
        None => {
            entries.push(entry);
            proof {
                assert(entry_views(entries@) =~= before.push(entry@));
            }
        },
    }
}

/// Reads the line `text[start..end]`.
fn parse_line(
    entries: &mut Vec<Entry>,
    section: &mut String,
    contents: &str,
    text: &Vec<char>,
    start: usize,
    end: usize,
)
    requires
        text@ == contents@,
        start <= end <= text@.len(),
    ensures
        (entry_views(final(entries)@), final(section)@) == parsed_line(
            (entry_views(old(entries)@), old(section)@),
            text@.subrange(start as int, end as int),
        ),
{
    let ghost line = text@.subrange(start as int, end as int);
    let (first, last) = trim_range(text, start, end);
    let ghost trimmed = trim(line);
    proof {
        assert(trimmed == text@.subrange(first as int, last as int));
    }
    if first == last || text[first] == ';' || text[first] == '#' {
        return;
    }
    if last - first >= 2 && text[first] == '[' && text[last - 1] == ']' {
        let (name_start, name_end) = trim_range(text, first + 1, last - 1);
        proof {
            assert(trimmed.subrange(1, trimmed.len() - 1) =~= text@.subrange(
                first + 1,
                last - 1,
            ));
        }
        *section = contents.substring_char(name_start, name_end).to_owned();
        return;
    }
    let equals = match find_char(text, first, last, '=') {
        Some(equals) => equals,
        None => return,
    };
    let (key_start, key_end) = trim_range(text, first, equals);
    proof {
        assert(trimmed.take(equals - first) =~= text@.subrange(first as int, equals as int));
    }
    if key_start == key_end {
        return;
    }
    let (value_start, value_end) = trim_range(text, equals + 1, last);
    proof {
        assert(trimmed.skip(equals - first + 1) =~= text@.subrange(equals + 1, last as int));
    }
    let entry = Entry {
        section: section.clone(),
        key: contents.substring_char(key_start, key_end).to_owned(),
        value: contents.substring_char(value_start, value_end).to_owned(),
    };
    upsert(entries, entry);
}

impl SettingsDocument {
    /// Reads a settings file.
    pub fn parse(contents: &str) -> (document: Self)
        ensures
            document@ == parsed_entries(contents@),
    {
        let text = chars_of(contents);
        let length = text.len();
        let mut entries: Vec<Entry> = Vec::new();
        let mut section = String::new();
        let ghost target = parsed_from(contents@, (Seq::empty(), Seq::empty()));
        proof {
            assert(entry_views(entries@) =~= Seq::<EntryView>::empty());
            assert(text@.skip(0) =~= text@);
        }
        let mut position: usize = 0;
        loop
            invariant_except_break
                position <= length,
                parsed_from(text@.skip(position as int), (entry_views(entries@), section@))
                    == target,
            invariant
                length == text@.len(),
                text@ == contents@,
            ensures
                entry_views(entries@) == target.0,
            decreases length - position,
        {
            let ghost rest = text@.skip(position as int);
            let ghost state = (entry_views(entries@), section@);
            match find_char(&text, position, length, '\n') {
                None => {
                    proof {
                        assert(rest =~= text@.subrange(position as int, length as int));
                    }
                    parse_line(&mut entries, &mut section, contents, &text, position, length);
                    break ;
                },
                Some(newline) => {
                    proof {
                        assert(rest =~= text@.subrange(position as int, length as int));
                        crate::seq_util::lemma_index_of_first_facts(rest, '\n');
                        assert(rest.take(newline - position) =~= text@.subrange(
                            position as int,
                            newline as int,
                        ));
                        assert(rest.skip(newline - position + 1) =~= text@.skip(newline + 1));
                    }
                    parse_line(&mut entries, &mut section, contents, &text, position, newline);
                    position = newline + 1;
                },
            }
        }
        Self { entries }
    }
}


/// The accent colour of the application icon.
#[derive(Clone, Copy, Debug, PartialEq, Eq, Structural)]
pub enum IconColor {
    Azure,
    Copper,
    Ember,
    Indigo,
    Orchid,
    Rosewood,
    Vermilion,
    Violet,
}

/// The name under which `color` is written to the settings file.
pub open spec fn icon_name(color: IconColor) -> Seq<char> {
    match color {
        IconColor::Azure => "Azure"@,
        IconColor::Copper => "Copper"@,
        IconColor::Ember => "Ember"@,
        IconColor::Indigo => "Indigo"@,
        IconColor::Orchid => "Orchid"@,
        IconColor::Rosewood => "Rosewood"@,
        IconColor::Vermilion => "Vermilion"@,
        IconColor::Violet => "Violet"@,
    }
}

/// The colour that a settings value names, in any ASCII case; Azure for any other value.
pub open spec fn parsed_icon(value: Seq<char>) -> IconColor {
    if ascii_case_equal(icon_name(IconColor::Azure), value) {
        IconColor::Azure
    } else if ascii_case_equal(icon_name(IconColor::Copper), value) {
        IconColor::Copper
    } else if ascii_case_equal(icon_name(IconColor::Ember), value) {
        IconColor::Ember
    } else if ascii_case_equal(icon_name(IconColor::Indigo), value) {
        IconColor::Indigo
    } else if ascii_case_equal(icon_name(IconColor::Orchid), value) {
        IconColor::Orchid
    } else if ascii_case_equal(icon_name(IconColor::Rosewood), value) {
        IconColor::Rosewood
    } else if ascii_case_equal(icon_name(IconColor::Vermilion), value) {
        IconColor::Vermilion
    } else if ascii_case_equal(icon_name(IconColor::Violet), value) {
        IconColor::Violet
    } else {
        IconColor::Azure
    }
}

impl Default for IconColor {
    fn default() -> (color: Self)
        ensures
            color == IconColor::Azure,
    {
        IconColor::Azure
    }
}

impl IconColor {
    /// Every colour, in the order in which a settings value is matched against them.
    pub const ALL: [IconColor; 8] = [
        IconColor::Azure,
        IconColor::Copper,
        IconColor::Ember,
        IconColor::Indigo,
        IconColor::Orchid,
        IconColor::Rosewood,
        IconColor::Vermilion,
        IconColor::Violet,
    ];

    /// The colour that `value` names, ignoring ASCII case; Azure for anything else.
    pub fn parse(value: &str) -> (color: Self)
        ensures
            color == parsed_icon(value@),
    {
        let all = Self::ALL;
        let mut index: usize = 0;
        while index < 8
            invariant
                index <= 8,
                all@ == Self::ALL@,
                forall|i: int| 0 <= i < index ==> !ascii_case_equal(#[trigger] icon_name(all@[i]), value@),
            decreases 8 - index,
        {
            let color = all[index];
            if ascii_case_eq(color.as_ini_value(), value) {
                return color;
            }
            index = index + 1;
        }
        IconColor::Azure
    }

    /// The name under which the colour is written to the settings file.
    pub fn as_ini_value(self) -> (name: &'static str)
        ensures
            name@ == icon_name(self),
    {
        match self {
            IconColor::Azure => "Azure",
            IconColor::Copper => "Copper",
            IconColor::Ember => "Ember",
            IconColor::Indigo => "Indigo",
            IconColor::Orchid => "Orchid",
            IconColor::Rosewood => "Rosewood",
            IconColor::Vermilion => "Vermilion",
            IconColor::Violet => "Violet",
        }
    }
}


/// Whether the switcher follows the system's light or dark appearance or keeps one.
#[derive(Clone, Copy, Debug, PartialEq, Eq, Structural)]
pub enum Theme {
    Auto,
    Light,
    Dark,
}

/// The name under which `theme` is written to the settings file.
pub open spec fn theme_name(theme: Theme) -> Seq<char> {
    match theme {
        Theme::Auto => "Auto"@,
        Theme::Light => "Light"@,
        Theme::Dark => "Dark"@,
    }
}

/// The theme that a settings value names, in any ASCII case; `Auto` for any other value.
pub open spec fn parsed_theme(value: Seq<char>) -> Theme {
    if ascii_case_equal(value, "light"@) {
        Theme::Light
    } else if ascii_case_equal(value, "dark"@) {
        Theme::Dark
    } else {
        Theme::Auto
    }
}

impl Default for Theme {
    fn default() -> (theme: Self)
        ensures
            theme == Theme::Auto,
    {
        Theme::Auto
    }
}

impl Theme {
    /// The theme that `value` names, ignoring ASCII case; `Auto` for anything else.
    pub fn parse(value: &str) -> (theme: Self)
        ensures
            theme == parsed_theme(value@),
    {
        if ascii_case_eq(value, "light") {
            Theme::Light
        } else if ascii_case_eq(value, "dark") {
            Theme::Dark
        } else {
            Theme::Auto
        }
    }

    /// The name under which the theme is written to the settings file.
    pub fn as_ini_value(self) -> (name: &'static str)
        ensures
            name@ == theme_name(self),
    {
        match self {
            Theme::Auto => "Auto",
            Theme::Light => "Light",
            Theme::Dark => "Dark",
        }
    }
}

/// The value that a settings value `true` or `false` stands for, in any ASCII case.
pub open spec fn parsed_bool(value: Seq<char>) -> Option<bool> {
    if ascii_case_equal(value, "true"@) {
        Some(true)
    } else if ascii_case_equal(value, "false"@) {
        Some(false)
    } else {
        None
    }
}

fn parse_bool(value: &str) -> (parsed: Option<bool>)
    ensures
        parsed == parsed_bool(value@),
{
    if ascii_case_eq(value, "true") {
        Some(true)
    } else if ascii_case_eq(value, "false") {
        Some(false)
    } else {
        None
    }
}

/// The `[General]` section: which shortcuts the switcher takes over and how it behaves.
#[derive(Clone, Copy, Debug, PartialEq, Eq, Structural)]
pub struct GeneralSettings {
    pub autostart: bool,
    pub replace_alt_tab: bool,
    pub replace_win_tab: bool,
    pub typed_search: bool,
    pub release_alt_switches: bool,
    pub release_right_button_switches: bool,
    pub right_button_wheel_switching: bool,
    pub mouse_over_selection: bool,
}

/// The `[Appearance]` section: how the switcher window looks.
#[derive(Clone, Copy, Debug, PartialEq, Eq, Structural)]
pub struct AppearanceSettings {
    pub icon: IconColor,
    pub theme: Theme,
    pub compact_list: bool,
    pub large_icons: bool,
    pub show_numbers: bool,
    pub show_app_names: bool,
    pub visible_borders: bool,
    pub preview: bool,
    pub full_desktop_preview: bool,
}

/// The `[Monitor]` section: on which display the switcher opens.
#[derive(Clone, Debug, PartialEq, Eq)]
pub struct MonitorSettings {
    pub monitor_mode: String,
    pub use_current_monitor_filter: bool,
}

/// The `[Monitor]` section as the contracts speak of it.
pub struct MonitorView {
    pub monitor_mode: Seq<char>,
    pub use_current_monitor_filter: bool,
}

impl View for MonitorSettings {
    type V = MonitorView;

    open spec fn view(&self) -> MonitorView {
        MonitorView {
            monitor_mode: self.monitor_mode@,
            use_current_monitor_filter: self.use_current_monitor_filter,
        }
    }
}

/// Everything the settings file configures.
#[derive(Clone, Debug, PartialEq, Eq)]
pub struct Settings {
    pub general: GeneralSettings,
    pub appearance: AppearanceSettings,
    pub monitor: MonitorSettings,
}

/// The settings as the contracts speak of them.
pub struct SettingsView {
    pub general: GeneralSettings,
    pub appearance: AppearanceSettings,
    pub monitor: MonitorView,
}

impl View for Settings {
    type V = SettingsView;

    open spec fn view(&self) -> SettingsView {
        SettingsView {
            general: self.general,
            appearance: self.appearance,
            monitor: self.monitor@,
        }
    }
}

/// The settings of a file that sets nothing.
pub open spec fn default_settings() -> SettingsView {
    SettingsView {
        general: GeneralSettings {
            autostart: true,
            replace_alt_tab: true,
            replace_win_tab: true,
            typed_search: true,
            release_alt_switches: true,
            release_right_button_switches: true,
            right_button_wheel_switching: true,
            mouse_over_selection: true,
        },
        appearance: AppearanceSettings {
            icon: IconColor::Azure,
            theme: Theme::Auto,
            compact_list: true,
            large_icons: true,
            show_numbers: true,
            show_app_names: false,
            visible_borders: false,
            preview: true,
            full_desktop_preview: false,
        },
        monitor: MonitorView {
            monitor_mode: "CurrentByCursor"@,
            use_current_monitor_filter: false,
        },
    }
}

impl Default for Settings {
    fn default() -> (settings: Self)
        ensures
            settings@ == default_settings(),
    {
        Settings {
            general: GeneralSettings {
                autostart: true,
                replace_alt_tab: true,
                replace_win_tab: true,
                typed_search: true,
                release_alt_switches: true,
                release_right_button_switches: true,
                right_button_wheel_switching: true,
                mouse_over_selection: true,
            },
            appearance: AppearanceSettings {
                icon: IconColor::Azure,
                theme: Theme::Auto,
                compact_list: true,
                large_icons: true,
                show_numbers: true,
                show_app_names: false,
                visible_borders: false,
                preview: true,
                full_desktop_preview: false,
            },
            monitor: MonitorSettings {
                monitor_mode: String::from_str("CurrentByCursor"),
                use_current_monitor_filter: false,
            },
        }
    }
}


/// The value of the entry under `section` and `key`, if there is one.
pub open spec fn found_value(entries: Seq<EntryView>, section: Seq<char>, key: Seq<char>) -> Option<
    Seq<char>,
> {
    match entry_index(entries, section, key) {
        Some(index) => Some(entries[index].value),
        None => None,
    }
}

/// The flag under `section` and `key`; `fallback` where it is missing or neither true nor false.
pub open spec fn read_bool(
    entries: Seq<EntryView>,
    section: Seq<char>,
    key: Seq<char>,
    fallback: bool,
) -> bool {
    match found_value(entries, section, key) {
        Some(value) => match parsed_bool(value) {
            Some(flag) => flag,
            None => fallback,
        },
        None => fallback,
    }
}

/// The text under `section` and `key`; `fallback` where it is missing or empty.
pub open spec fn read_string(
    entries: Seq<EntryView>,
    section: Seq<char>,
    key: Seq<char>,
    fallback: Seq<char>,
) -> Seq<char> {
    match found_value(entries, section, key) {
        Some(value) => if value.len() > 0 {
            value
        } else {
            fallback
        },
        None => fallback,
    }
}

/// The settings that the entries of a file give, each missing or unreadable one at its default.
pub open spec fn settings_of(entries: Seq<EntryView>) -> SettingsView {
    let defaults = default_settings();
    SettingsView {
        general: GeneralSettings {
            autostart: read_bool(
                entries,
                "General"@,
                "Autostart"@,
                defaults.general.autostart,
            ),
            replace_alt_tab: read_bool(
                entries,
                "General"@,
                "ReplaceAltTab"@,
                defaults.general.replace_alt_tab,
            ),
            replace_win_tab: read_bool(
                entries,
                "General"@,
                "ReplaceWinTab"@,
                defaults.general.replace_win_tab,
            ),
            typed_search: read_bool(
                entries,
                "General"@,
                "TypedSearch"@,
                defaults.general.typed_search,
            ),
            release_alt_switches: read_bool(
                entries,
                "General"@,
                "ReleaseAltSwitches"@,
                defaults.general.release_alt_switches,
            ),
            release_right_button_switches: read_bool(
                entries,
                "General"@,
                "ReleaseRmbSwitches"@,
                defaults.general.release_right_button_switches,
            ),
            right_button_wheel_switching: read_bool(
                entries,
                "General"@,
                "RmbWheelSwitching"@,
                defaults.general.right_button_wheel_switching,
            ),
            mouse_over_selection: read_bool(
                entries,
                "General"@,
                "MouseOverSelection"@,
                defaults.general.mouse_over_selection,
            ),
        },
        appearance: AppearanceSettings {
            icon: match found_value(entries, "Appearance"@, "Icon"@) {
                Some(value) => parsed_icon(value),
                None => defaults.appearance.icon,
            },
            theme: match found_value(entries, "Appearance"@, "Theme"@) {
                Some(value) => parsed_theme(value),
                None => defaults.appearance.theme,
            },
            compact_list: read_bool(
                entries,
                "Appearance"@,
                "CompactList"@,
                defaults.appearance.compact_list,
            ),
            large_icons: read_bool(
                entries,
                "Appearance"@,
                "LargeIcons"@,
                defaults.appearance.large_icons,
            ),
            show_numbers: read_bool(
                entries,
                "Appearance"@,
                "ShowNumbers"@,
                defaults.appearance.show_numbers,
            ),
            show_app_names: read_bool(
                entries,
                "Appearance"@,
                "ShowAppNames"@,
                defaults.appearance.show_app_names,
            ),
            visible_borders: read_bool(
                entries,
                "Appearance"@,
                "VisibleBorders"@,
                defaults.appearance.visible_borders,
            ),
            preview: read_bool(entries, "Appearance"@, "Preview"@, defaults.appearance.preview),
            full_desktop_preview: read_bool(
                entries,
                "Appearance"@,
                "FullDesktopPreview"@,
                defaults.appearance.full_desktop_preview,
            ),
        },
        monitor: MonitorView {
            monitor_mode: read_string(
                entries,
                "Monitor"@,
                "Mode"@,
                defaults.monitor.monitor_mode,
            ),
            use_current_monitor_filter: read_bool(
                entries,
                "Monitor"@,
                "UseCurrentMonitorFilter"@,
                defaults.monitor.use_current_monitor_filter,
            ),
        },
    }
}

impl Default for SettingsDocument {
    fn default() -> (document: Self)
        ensures
            document@ == Seq::<EntryView>::empty(),
    {
        let document = SettingsDocument { entries: Vec::new() };
        proof {
            assert(document@ =~= Seq::<EntryView>::empty());
        }
        document
    }
}

impl SettingsDocument {
    fn find(&self, section: &str, key: &str) -> (found: Option<&str>)
        ensures
            match found {
                Some(value) => found_value(self@, section@, key@) == Some(value@),
                None => found_value(self@, section@, key@) is None,
            },
    {
        match find_entry(&self.entries, section, key) {
            Some(index) => Some(self.entries[index].value.as_str()),
            None => None,
        }
    }

    fn read_bool(&self, section: &str, key: &str, fallback: bool) -> (flag: bool)
        ensures
            flag == read_bool(self@, section@, key@, fallback),
    {
        match self.find(section, key) {
            Some(value) => match parse_bool(value) {
                Some(flag) => flag,
                None => fallback,
            },
            None => fallback,
        }
    }

    fn read_string(&self, section: &str, key: &str, fallback: &str) -> (text: String)
        ensures
            text@ == read_string(self@, section@, key@, fallback@),
    {
        match self.find(section, key) {
            Some(value) => if value.unicode_len() > 0 {
                String::from_str(value)
            } else {
                String::from_str(fallback)
            },
            None => String::from_str(fallback),
        }
    }

    /// The settings that the file gives, each missing or unreadable one at its default.
    pub fn settings(&self) -> (settings: Settings)
        ensures
            settings@ == settings_of(self@),
    {
        let defaults = Settings::default();
        let icon = match self.find("Appearance", "Icon") {
            Some(value) => IconColor::parse(value),
            None => defaults.appearance.icon,
        };
        let theme = match self.find("Appearance", "Theme") {
            Some(value) => Theme::parse(value),
            None => defaults.appearance.theme,
        };
        Settings {
            general: GeneralSettings {
                autostart: self.read_bool("General", "Autostart", defaults.general.autostart),
                replace_alt_tab: self.read_bool(
                    "General",
                    "ReplaceAltTab",
                    defaults.general.replace_alt_tab,
                ),
                replace_win_tab: self.read_bool(
                    "General",
                    "ReplaceWinTab",
                    defaults.general.replace_win_tab,
                ),
                typed_search: self.read_bool(
                    "General",
                    "TypedSearch",
                    defaults.general.typed_search,
                ),
                release_alt_switches: self.read_bool(
                    "General",
                    "ReleaseAltSwitches",
                    defaults.general.release_alt_switches,
                ),
                release_right_button_switches: self.read_bool(
                    "General",
                    "ReleaseRmbSwitches",
                    defaults.general.release_right_button_switches,
                ),
                right_button_wheel_switching: self.read_bool(
                    "General",
                    "RmbWheelSwitching",
                    defaults.general.right_button_wheel_switching,
                ),
                mouse_over_selection: self.read_bool(
                    "General",
                    "MouseOverSelection",
                    defaults.general.mouse_over_selection,
                ),
            },
            appearance: AppearanceSettings {
                icon,
                theme,
                compact_list: self.read_bool(
                    "Appearance",
                    "CompactList",
                    defaults.appearance.compact_list,
                ),
                large_icons: self.read_bool(
                    "Appearance",
                    "LargeIcons",
                    defaults.appearance.large_icons,
                ),
                show_numbers: self.read_bool(
                    "Appearance",
                    "ShowNumbers",
                    defaults.appearance.show_numbers,
                ),
                show_app_names: self.read_bool(
                    "Appearance",
                    "ShowAppNames",
                    defaults.appearance.show_app_names,
                ),
                visible_borders: self.read_bool(
                    "Appearance",
                    "VisibleBorders",
                    defaults.appearance.visible_borders,
                ),
                preview: self.read_bool("Appearance", "Preview", defaults.appearance.preview),
                full_desktop_preview: self.read_bool(
                    "Appearance",
                    "FullDesktopPreview",
                    defaults.appearance.full_desktop_preview,
                ),
            },
            monitor: MonitorSettings {
                monitor_mode: self.read_string(
                    "Monitor",
                    "Mode",
                    defaults.monitor.monitor_mode.as_str(),
                ),
                use_current_monitor_filter: self.read_bool(
                    "Monitor",
                    "UseCurrentMonitorFilter",
                    defaults.monitor.use_current_monitor_filter,
                ),
            },
        }
    }
}


/// The section and key of every setting that `Settings` holds, in the order they are written.
pub open spec fn known_keys() -> Seq<(Seq<char>, Seq<char>)> {
    seq![
        ("General"@, "Autostart"@),
        ("General"@, "ReplaceAltTab"@),
        ("General"@, "ReplaceWinTab"@),
        ("General"@, "TypedSearch"@),
        ("General"@, "ReleaseAltSwitches"@),
        ("General"@, "ReleaseRmbSwitches"@),
        ("General"@, "RmbWheelSwitching"@),
        ("General"@, "MouseOverSelection"@),
        ("Appearance"@, "Icon"@),
        ("Appearance"@, "Theme"@),
        ("Appearance"@, "CompactList"@),
        ("Appearance"@, "LargeIcons"@),
        ("Appearance"@, "ShowNumbers"@),
        ("Appearance"@, "ShowAppNames"@),
        ("Appearance"@, "VisibleBorders"@),
        ("Appearance"@, "Preview"@),
        ("Appearance"@, "FullDesktopPreview"@),
        ("Monitor"@, "Mode"@),
        ("Monitor"@, "UseCurrentMonitorFilter"@),
    ]
}

/// Whether `entry` holds a setting that `Settings` has a field for.
pub open spec fn is_known(entry: EntryView) -> bool {
    exists|i: int|
        0 <= i < known_keys().len() && names(entry, #[trigger] known_keys()[i].0, known_keys()[i].1)
}

fn known_key(index: usize) -> (pair: (&'static str, &'static str))
    requires
        index < 19,
    ensures
        (pair.0@, pair.1@) == known_keys()[index as int],
{
    match index {
        0 => ("General", "Autostart"),
        1 => ("General", "ReplaceAltTab"),
        2 => ("General", "ReplaceWinTab"),
        3 => ("General", "TypedSearch"),
        4 => ("General", "ReleaseAltSwitches"),
        5 => ("General", "ReleaseRmbSwitches"),
        6 => ("General", "RmbWheelSwitching"),
        7 => ("General", "MouseOverSelection"),
        8 => ("Appearance", "Icon"),
        9 => ("Appearance", "Theme"),
        10 => ("Appearance", "CompactList"),
        11 => ("Appearance", "LargeIcons"),
        12 => ("Appearance", "ShowNumbers"),
        13 => ("Appearance", "ShowAppNames"),
        14 => ("Appearance", "VisibleBorders"),
        15 => ("Appearance", "Preview"),
        16 => ("Appearance", "FullDesktopPreview"),
        17 => ("Monitor", "Mode"),
        _ => ("Monitor", "UseCurrentMonitorFilter"),
    }
}

fn is_known_entry(entry: &Entry) -> (known: bool)
    ensures
        known == is_known(entry@),
{
    let mut index: usize = 0;
    while index < 19
        invariant
            index <= 19,
            known_keys().len() == 19,
            forall|i: int|
                0 <= i < index ==> !names(entry@, #[trigger] known_keys()[i].0, known_keys()[i].1),
        decreases 19 - index,
    {
        let (section, key) = known_key(index);
        if ascii_case_eq(entry.section.as_str(), section) && ascii_case_eq(entry.key.as_str(), key) {
            assert(names(entry@, known_keys()[index as int].0, known_keys()[index as int].1));
            return true;
        }
        index = index + 1;
    }
    false
}

/// How a flag is written to the settings file.
pub open spec fn bool_word(flag: bool) -> Seq<char> {
    if flag {
        "true"@
    } else {
        "false"@
    }
}

fn bool_text(flag: bool) -> (word: &'static str)
    ensures
        word@ == bool_word(flag),
{
    if flag {
        "true"
    } else {
        "false"
    }
}

/// Lines of text, each followed by a line break.
pub open spec fn lines_text(lines: Seq<Seq<char>>) -> Seq<char>
    decreases lines.len(),
{
    if lines.len() == 0 {
        Seq::empty()
    } else {
        lines_text(lines.drop_last()) + lines.last() + seq!['\n']
    }
}

/// The line `key=value`.
pub open spec fn setting(key: Seq<char>, value: Seq<char>) -> Seq<char> {
    key + seq!['='] + value
}

/// The line `[name]` that opens a section.
pub open spec fn header(name: Seq<char>) -> Seq<char> {
    seq!['['] + name + seq![']']
}

/// The line `key=value` with its line break.
pub open spec fn setting_line(key: Seq<char>, value: Seq<char>) -> Seq<char> {
    setting(key, value) + seq!['\n']
}

fn append_line(text: &mut String, line: &str, Ghost(lines): Ghost<Seq<Seq<char>>>)
    requires
        old(text)@ == lines_text(lines),
    ensures
        final(text)@ == lines_text(lines.push(line@)),
{
    text.append(line);
    text.append("\n");
    proof {
        reveal_strlit("\n");
        assert(lines.push(line@).drop_last() =~= lines);
    }
}

fn append_header(text: &mut String, name: &str, Ghost(lines): Ghost<Seq<Seq<char>>>)
    requires
        old(text)@ == lines_text(lines),
    ensures
        final(text)@ == lines_text(lines.push(header(name@))),
{
    let ghost before = text@;
    text.append("[");
    text.append(name);
    text.append("]\n");
    proof {
        reveal_strlit("[");
        reveal_strlit("]\n");
        assert(lines.push(header(name@)).drop_last() =~= lines);
        assert(text@ =~= before + header(name@) + seq!['\n']);
    }
}

fn push_setting(text: &mut String, key: &str, value: &str)
    ensures
        final(text)@ == old(text)@ + setting_line(key@, value@),
{
    let ghost before = text@;
    text.append(key);
    text.append("=");
    text.append(value);
    text.append("\n");
    proof {
        reveal_strlit("=");
        reveal_strlit("\n");
        assert(text@ =~= before + setting_line(key@, value@));
    }
}

fn append_setting(text: &mut String, key: &str, value: &str, Ghost(lines): Ghost<Seq<Seq<char>>>)
    requires
        old(text)@ == lines_text(lines),
    ensures
        final(text)@ == lines_text(lines.push(setting(key@, value@))),
{
    let ghost before = text@;
    push_setting(text, key, value);
    proof {
        assert(lines.push(setting(key@, value@)).drop_last() =~= lines);
        assert(text@ =~= before + setting(key@, value@) + seq!['\n']);
    }
}

/// The lines of the `[General]` section with the values of `settings`.
pub open spec fn general_lines(settings: SettingsView) -> Seq<Seq<char>> {
    seq![
        header("General"@),
        setting("Autostart"@, bool_word(settings.general.autostart)),
        setting("ReplaceAltTab"@, bool_word(settings.general.replace_alt_tab)),
        setting("ReplaceWinTab"@, bool_word(settings.general.replace_win_tab)),
        setting("TypedSearch"@, bool_word(settings.general.typed_search)),
        setting("ReleaseAltSwitches"@, bool_word(settings.general.release_alt_switches)),
        setting("ReleaseRmbSwitches"@, bool_word(settings.general.release_right_button_switches)),
        setting("RmbWheelSwitching"@, bool_word(settings.general.right_button_wheel_switching)),
        setting("MouseOverSelection"@, bool_word(settings.general.mouse_over_selection)),
    ]
}

/// A blank line and the lines of the `[Appearance]` section with the values of `settings`.
pub open spec fn appearance_lines(settings: SettingsView) -> Seq<Seq<char>> {
    seq![
        Seq::empty(),
        header("Appearance"@),
        setting("Icon"@, icon_name(settings.appearance.icon)),
        setting("Theme"@, theme_name(settings.appearance.theme)),
        setting("CompactList"@, bool_word(settings.appearance.compact_list)),
        setting("LargeIcons"@, bool_word(settings.appearance.large_icons)),
        setting("ShowNumbers"@, bool_word(settings.appearance.show_numbers)),
        setting("ShowAppNames"@, bool_word(settings.appearance.show_app_names)),
        setting("VisibleBorders"@, bool_word(settings.appearance.visible_borders)),
        setting("Preview"@, bool_word(settings.appearance.preview)),
        setting("FullDesktopPreview"@, bool_word(settings.appearance.full_desktop_preview)),
    ]
}

/// A blank line and the lines of the `[Monitor]` section with the values of `settings`.
pub open spec fn monitor_lines(settings: SettingsView) -> Seq<Seq<char>> {
    seq![
        Seq::empty(),
        header("Monitor"@),
        setting("Mode"@, settings.monitor.monitor_mode),
        setting("UseCurrentMonitorFilter"@, bool_word(settings.monitor.use_current_monitor_filter)),
    ]
}

/// The lines of the three known sections with the values of `settings`, in their fixed order,
/// a blank line between sections.
pub open spec fn known_lines(settings: SettingsView) -> Seq<Seq<char>> {
    general_lines(settings) + appearance_lines(settings) + monitor_lines(settings)
}

/// The three known sections with the values of `settings`, in their fixed order.
pub open spec fn known_text(settings: SettingsView) -> Seq<char> {
    lines_text(known_lines(settings))
}

/// Whether an entry of `section` opens a new block after the block of `current`.
pub open spec fn opens_section(current: Option<Seq<char>>, section: Seq<char>) -> bool {
    match current {
        None => true,
        Some(open) => !ascii_case_equal(open, section),
    }
}

/// The blank line, and the section name where there is one, that open a block of entries.
pub open spec fn section_header(section: Seq<char>) -> Seq<char> {
    if section.len() == 0 {
        seq!['\n']
    } else {
        seq!['\n'] + header(section) + seq!['\n']
    }
}

/// The entries that `Settings` has no field for, in file order, in blocks of one section.
pub open spec fn unknown_text(entries: Seq<EntryView>, current: Option<Seq<char>>) -> Seq<char>
    decreases entries.len(),
{
    if entries.len() == 0 {
        Seq::empty()
    } else {
        let entry = entries[0];
        let rest = entries.drop_first();
        if is_known(entry) {
            unknown_text(rest, current)
        } else if opens_section(current, entry.section) {
            section_header(entry.section) + setting_line(entry.key, entry.value) + unknown_text(
                rest,
                Some(entry.section),
            )
        } else {
            setting_line(entry.key, entry.value) + unknown_text(rest, current)
        }
    }
}

/// The settings file that holds `settings` and keeps the entries it has no field for.
pub open spec fn rendered(entries: Seq<EntryView>, settings: SettingsView) -> Seq<char> {
    known_text(settings) + unknown_text(entries, None)
}

spec fn opened(current: Option<&str>) -> Option<Seq<char>> {
    match current {
        Some(section) => Some(section@),
        None => None,
    }
}

#[verifier::spinoff_prover]
#[verifier::rlimit(30)]
fn append_general(text: &mut String, settings: &Settings, Ghost(start): Ghost<Seq<Seq<char>>>)
    requires
        old(text)@ == lines_text(start),
    ensures
        final(text)@ == lines_text(start + general_lines(settings@)),
{
    let ghost mut lines = start;
    append_header(text, "General", Ghost(lines));
    proof { lines = lines.push(header("General"@)); }
    append_setting(text, "Autostart", bool_text(settings.general.autostart), Ghost(lines));
    proof { lines = lines.push(setting("Autostart"@, bool_word(settings.general.autostart))); }
    append_setting(text, "ReplaceAltTab", bool_text(settings.general.replace_alt_tab), Ghost(lines));
    proof { lines = lines.push(setting("ReplaceAltTab"@, bool_word(settings.general.replace_alt_tab))); }
    append_setting(text, "ReplaceWinTab", bool_text(settings.general.replace_win_tab), Ghost(lines));
    proof { lines = lines.push(setting("ReplaceWinTab"@, bool_word(settings.general.replace_win_tab))); }
    append_setting(text, "TypedSearch", bool_text(settings.general.typed_search), Ghost(lines));
    proof { lines = lines.push(setting("TypedSearch"@, bool_word(settings.general.typed_search))); }
    append_setting(text, "ReleaseAltSwitches", bool_text(settings.general.release_alt_switches), Ghost(lines));
    proof { lines = lines.push(setting("ReleaseAltSwitches"@, bool_word(settings.general.release_alt_switches))); }
    append_setting(text, "ReleaseRmbSwitches", bool_text(settings.general.release_right_button_switches), Ghost(lines));
    proof { lines = lines.push(setting("ReleaseRmbSwitches"@, bool_word(settings.general.release_right_button_switches))); }
    append_setting(text, "RmbWheelSwitching", bool_text(settings.general.right_button_wheel_switching), Ghost(lines));
    proof { lines = lines.push(setting("RmbWheelSwitching"@, bool_word(settings.general.right_button_wheel_switching))); }
    append_setting(text, "MouseOverSelection", bool_text(settings.general.mouse_over_selection), Ghost(lines));
    proof {
        lines = lines.push(setting("MouseOverSelection"@, bool_word(settings.general.mouse_over_selection)));
        assert(lines =~= start + general_lines(settings@));
    }
}

fn append_blank(text: &mut String, Ghost(lines): Ghost<Seq<Seq<char>>>)
    requires
        old(text)@ == lines_text(lines),
    ensures
        final(text)@ == lines_text(lines.push(Seq::empty())),
{
    append_line(text, "", Ghost(lines));
    proof {
        reveal_strlit("");
        assert(""@ =~= Seq::<char>::empty());
    }
}

#[verifier::spinoff_prover]
#[verifier::rlimit(30)]
fn append_appearance(text: &mut String, settings: &Settings, Ghost(start): Ghost<Seq<Seq<char>>>)
    requires
        old(text)@ == lines_text(start),
    ensures
        final(text)@ == lines_text(start + appearance_lines(settings@)),
{
    let ghost mut lines = start;
    append_blank(text, Ghost(lines));
    proof { lines = lines.push(Seq::empty()); }
    append_header(text, "Appearance", Ghost(lines));
    proof { lines = lines.push(header("Appearance"@)); }
    append_setting(text, "Icon", settings.appearance.icon.as_ini_value(), Ghost(lines));
    proof { lines = lines.push(setting("Icon"@, icon_name(settings.appearance.icon))); }
    append_setting(text, "Theme", settings.appearance.theme.as_ini_value(), Ghost(lines));
    proof { lines = lines.push(setting("Theme"@, theme_name(settings.appearance.theme))); }
    append_setting(text, "CompactList", bool_text(settings.appearance.compact_list), Ghost(lines));
    proof { lines = lines.push(setting("CompactList"@, bool_word(settings.appearance.compact_list))); }
    append_setting(text, "LargeIcons", bool_text(settings.appearance.large_icons), Ghost(lines));
    proof { lines = lines.push(setting("LargeIcons"@, bool_word(settings.appearance.large_icons))); }
    append_setting(text, "ShowNumbers", bool_text(settings.appearance.show_numbers), Ghost(lines));
    proof { lines = lines.push(setting("ShowNumbers"@, bool_word(settings.appearance.show_numbers))); }
    append_setting(text, "ShowAppNames", bool_text(settings.appearance.show_app_names), Ghost(lines));
    proof { lines = lines.push(setting("ShowAppNames"@, bool_word(settings.appearance.show_app_names))); }
    append_setting(text, "VisibleBorders", bool_text(settings.appearance.visible_borders), Ghost(lines));
    proof { lines = lines.push(setting("VisibleBorders"@, bool_word(settings.appearance.visible_borders))); }
    append_setting(text, "Preview", bool_text(settings.appearance.preview), Ghost(lines));
    proof { lines = lines.push(setting("Preview"@, bool_word(settings.appearance.preview))); }
    append_setting(text, "FullDesktopPreview", bool_text(settings.appearance.full_desktop_preview), Ghost(lines));
    proof {
        lines = lines.push(setting("FullDesktopPreview"@, bool_word(settings.appearance.full_desktop_preview)));
        assert(lines =~= start + appearance_lines(settings@));
    }
}

#[verifier::spinoff_prover]
#[verifier::rlimit(30)]
fn append_monitor(text: &mut String, settings: &Settings, Ghost(start): Ghost<Seq<Seq<char>>>)
    requires
        old(text)@ == lines_text(start),
    ensures
        final(text)@ == lines_text(start + monitor_lines(settings@)),
{
    let ghost mut lines = start;
    append_blank(text, Ghost(lines));
    proof { lines = lines.push(Seq::empty()); }
    append_header(text, "Monitor", Ghost(lines));
    proof { lines = lines.push(header("Monitor"@)); }
    append_setting(text, "Mode", settings.monitor.monitor_mode.as_str(), Ghost(lines));
    proof { lines = lines.push(setting("Mode"@, settings.monitor.monitor_mode@)); }
    append_setting(text, "UseCurrentMonitorFilter", bool_text(settings.monitor.use_current_monitor_filter), Ghost(lines));
    proof {
        lines = lines.push(setting("UseCurrentMonitorFilter"@, bool_word(settings.monitor.use_current_monitor_filter)));
        assert(lines =~= start + monitor_lines(settings@));
    }
}

#[verifier::spinoff_prover]
#[verifier::rlimit(30)]
fn write_known_lines(settings: &Settings) -> (text: String)
    ensures
        text@ == known_text(settings@),
{
    let mut text = String::new();
    proof {
        assert(text@ == lines_text(Seq::empty()));
        assert(Seq::<Seq<char>>::empty() + general_lines(settings@) =~= general_lines(settings@));
    }
    append_general(&mut text, settings, Ghost(Seq::empty()));
    append_appearance(&mut text, settings, Ghost(general_lines(settings@)));
    append_monitor(&mut text, settings, Ghost(general_lines(settings@) + appearance_lines(settings@)));
    text
}

fn push_unknown_lines(entries: &Vec<Entry>, text: &mut String)
    ensures
        final(text)@ == old(text)@ + unknown_text(entry_views(entries@), None),
{
    let ghost views = entry_views(entries@);
    let ghost target = old(text)@ + unknown_text(views, None);
    proof {
        assert(views.skip(0) =~= views);
    }
    let mut current: Option<&str> = None;
    let mut index: usize = 0;
    while index < entries.len()
        invariant
            index <= entries@.len(),
            views == entry_views(entries@),
            text@ + unknown_text(views.skip(index as int), opened(current)) == target,
        decreases entries@.len() - index,
    {
        let entry = &entries[index];
        let ghost before = text@;
        let ghost rest = views.skip(index as int);
        proof {
            assert(rest[0] == entry@);
            assert(rest.drop_first() =~= views.skip(index + 1));
        }
        if !is_known_entry(entry) {
            let opens = match current {
                None => true,
                Some(section) => !ascii_case_eq(section, entry.section.as_str()),
            };
            if opens {
                let ghost before_header = text@;
                if entry.section.unicode_len() == 0 {
                    text.append("\n");
                } else {
                    text.append("\n[");
                    text.append(entry.section.as_str());
                    text.append("]\n");
                }
                proof {
                    reveal_strlit("\n");
                    reveal_strlit("\n[");
                    reveal_strlit("]\n");
                    assert(text@ =~= before_header + section_header(entry@.section));
                }
                current = Some(entry.section.as_str());
            }
            push_setting(text, entry.key.as_str(), entry.value.as_str());
            proof {
                let tail = unknown_text(views.skip(index + 1), opened(current));
                if opens {
                    assert(text@ + tail =~= before + (section_header(entry@.section)
                        + setting_line(entry@.key, entry@.value) + tail));
                } else {
                    assert(text@ + tail =~= before + (setting_line(entry@.key, entry@.value)
                        + tail));
                }
            }
        }
        index = index + 1;
    }
    proof {
        assert(views.skip(index as int) =~= Seq::<EntryView>::empty());
        assert(text@ + Seq::<char>::empty() =~= text@);
    }
}

impl SettingsDocument {
    /// The settings file with the values of `settings` and every other entry of this one.
    pub fn render(&self, settings: &Settings) -> (text: String)
        ensures
            text@ == rendered(self@, settings@),
    {
        let mut text = write_known_lines(settings);
        push_unknown_lines(&self.entries, &mut text);
        text
    }
}


proof fn lemma_same_case_answer(a: Seq<char>, b: Seq<char>, literal: Seq<char>)
    requires
        ascii_case_equal(a, b),
    ensures
        ascii_case_equal(a, literal) == ascii_case_equal(b, literal),
        ascii_case_equal(literal, a) == ascii_case_equal(literal, b),
{
    lemma_ascii_case_equivalence(a, b, literal);
    lemma_ascii_case_equivalence(b, a, literal);
    lemma_ascii_case_equivalence(literal, a, b);
    lemma_ascii_case_equivalence(literal, b, a);
    lemma_ascii_case_equivalence(a, literal, b);
    lemma_ascii_case_equivalence(b, literal, a);
}

/// Flags, colours and themes are read without regard to ASCII case: values that differ only in
/// case read the same.
pub proof fn law_values_read_without_regard_to_case(a: Seq<char>, b: Seq<char>)
    requires
        ascii_case_equal(a, b),
    ensures
        parsed_bool(a) == parsed_bool(b),
        parsed_icon(a) == parsed_icon(b),
        parsed_theme(a) == parsed_theme(b),
{
    lemma_same_case_answer(a, b, "true"@);
    lemma_same_case_answer(a, b, "false"@);
    lemma_same_case_answer(a, b, "light"@);
    lemma_same_case_answer(a, b, "dark"@);
    lemma_same_case_answer(a, b, icon_name(IconColor::Azure));
    lemma_same_case_answer(a, b, icon_name(IconColor::Copper));
    lemma_same_case_answer(a, b, icon_name(IconColor::Ember));
    lemma_same_case_answer(a, b, icon_name(IconColor::Indigo));
    lemma_same_case_answer(a, b, icon_name(IconColor::Orchid));
    lemma_same_case_answer(a, b, icon_name(IconColor::Rosewood));
    lemma_same_case_answer(a, b, icon_name(IconColor::Vermilion));
    lemma_same_case_answer(a, b, icon_name(IconColor::Violet));
}

proof fn lemma_different_names(a: Seq<char>, b: Seq<char>)
    requires
        a.len() != b.len() || (a.len() > 0 && b.len() > 0 && ascii_folded(a[0]) != ascii_folded(
            b[0],
        )),
    ensures
        !ascii_case_equal(a, b),
{
}

/// Every value the file is written with reads back as itself: the canonical names of the
/// colours and themes, and the words of the flags.
pub proof fn law_written_values_read_back(color: IconColor, theme: Theme, flag: bool)
    ensures
        parsed_icon(icon_name(color)) == color,
        parsed_theme(theme_name(theme)) == theme,
        parsed_bool(bool_word(flag)) == Some(flag),
{
    reveal_strlit("Azure");
    reveal_strlit("Copper");
    reveal_strlit("Ember");
    reveal_strlit("Indigo");
    reveal_strlit("Orchid");
    reveal_strlit("Rosewood");
    reveal_strlit("Vermilion");
    reveal_strlit("Violet");
    reveal_strlit("Auto");
    reveal_strlit("Light");
    reveal_strlit("Dark");
    reveal_strlit("light");
    reveal_strlit("dark");
    reveal_strlit("true");
    reveal_strlit("false");
    let names = seq![
        icon_name(IconColor::Azure),
        icon_name(IconColor::Copper),
        icon_name(IconColor::Ember),
        icon_name(IconColor::Indigo),
        icon_name(IconColor::Orchid),
        icon_name(IconColor::Rosewood),
        icon_name(IconColor::Vermilion),
        icon_name(IconColor::Violet),
    ];
    assert forall|i: int, j: int| 0 <= i < 8 && 0 <= j < 8 && i != j implies !ascii_case_equal(
        #[trigger] names[i],
        #[trigger] names[j],
    ) by {
        lemma_different_names(names[i], names[j]);
    }
    lemma_ascii_case_equivalence(icon_name(color), icon_name(color), icon_name(color));
    lemma_ascii_case_equivalence(bool_word(flag), bool_word(flag), bool_word(flag));
    lemma_different_names("false"@, "true"@);
    lemma_different_names("true"@, "false"@);
    lemma_different_names("Auto"@, "light"@);
    lemma_different_names("Auto"@, "dark"@);
    lemma_different_names("Dark"@, "light"@);
    assert(ascii_case_equal("Light"@, "light"@));
    assert(ascii_case_equal("Dark"@, "dark"@));
    assert(names[0] == icon_name(IconColor::Azure));
    assert(names[1] == icon_name(IconColor::Copper));
    assert(names[2] == icon_name(IconColor::Ember));
    assert(names[3] == icon_name(IconColor::Indigo));
    assert(names[4] == icon_name(IconColor::Orchid));
    assert(names[5] == icon_name(IconColor::Rosewood));
    assert(names[6] == icon_name(IconColor::Vermilion));
    assert(names[7] == icon_name(IconColor::Violet));
}

/// A file that sets nothing gives the established defaults.
pub proof fn law_missing_values_use_the_defaults()
    ensures
        settings_of(Seq::empty()) == default_settings(),
{
}

proof fn lemma_entry_index_from(entries: Seq<EntryView>, section: Seq<char>, key: Seq<char>, from: int)
    requires
        0 <= from,
    ensures
        match entry_index_from(entries, section, key, from) {
            Some(index) => from <= index < entries.len() && names(entries[index], section, key)
                && forall|j: int| from <= j < index ==> !names(#[trigger] entries[j], section, key),
            None => forall|j: int| from <= j < entries.len() ==> !names(#[trigger] entries[j], section, key),
        },
    decreases entries.len() - from,
{
    if from < entries.len() && !names(entries[from], section, key) {
        lemma_entry_index_from(entries, section, key, from + 1);
    }
}

proof fn lemma_entry_index_is(entries: Seq<EntryView>, section: Seq<char>, key: Seq<char>, index: int)
    requires
        0 <= index < entries.len(),
        names(entries[index], section, key),
        forall|j: int| 0 <= j < index ==> !names(#[trigger] entries[j], section, key),
    ensures
        entry_index(entries, section, key) == Some(index),
{
    lemma_entry_index_from(entries, section, key, 0);
    match entry_index(entries, section, key) {
        Some(found) => {
            if found < index {
                assert(!names(entries[found], section, key));
            } else if found > index {
                assert(!names(entries[index], section, key));
            }
        },
        None => {
            assert(!names(entries[index], section, key));
        },
    }
}

proof fn lemma_names_follow(x: EntryView, entry: EntryView, section: Seq<char>, key: Seq<char>)
    requires
        names(entry, section, key),
    ensures
        names(x, section, key) == names(x, entry.section, entry.key),
{
    lemma_ascii_case_equivalence(x.section, entry.section, section);
    lemma_ascii_case_equivalence(x.section, section, entry.section);
    lemma_ascii_case_equivalence(entry.section, section, section);
    lemma_ascii_case_equivalence(x.key, entry.key, key);
    lemma_ascii_case_equivalence(x.key, key, entry.key);
    lemma_ascii_case_equivalence(entry.key, key, key);
}

/// A value read later replaces one read earlier under the same section and key, in any ASCII
/// case: reading either name afterwards gives the later value.
pub proof fn law_later_value_wins(
    entries: Seq<EntryView>,
    entry: EntryView,
    section: Seq<char>,
    key: Seq<char>,
)
    requires
        names(entry, section, key),
    ensures
        found_value(upserted(entries, entry), section, key) == Some(entry.value),
{
    lemma_entry_index_from(entries, entry.section, entry.key, 0);
    let after = upserted(entries, entry);
    match entry_index(entries, entry.section, entry.key) {
        Some(index) => {
            assert forall|j: int| 0 <= j < index implies !names(#[trigger] after[j], section, key) by {
                lemma_names_follow(entries[j], entry, section, key);
            }
            lemma_entry_index_is(after, section, key, index);
        },
        None => {
            assert forall|j: int| 0 <= j < entries.len() implies !names(#[trigger] after[j], section, key) by {
                lemma_names_follow(entries[j], entry, section, key);
            }
            lemma_entry_index_is(after, section, key, entries.len() as int);
        },
    }
}


/// Reads `lines` one after the other from `state`.
pub open spec fn parsed_lines(lines: Seq<Seq<char>>, state: (Seq<EntryView>, Seq<char>)) -> (
    Seq<EntryView>,
    Seq<char>,
)
    decreases lines.len(),
{
    if lines.len() == 0 {
        state
    } else {
        parsed_lines(lines.drop_first(), parsed_line(state, lines[0]))
    }
}

proof fn lemma_lines_text_front(lines: Seq<Seq<char>>)
    requires
        lines.len() > 0,
    ensures
        lines_text(lines) == lines[0] + seq!['\n'] + lines_text(lines.drop_first()),
    decreases lines.len(),
{
    if lines.len() == 1 {
        assert(lines.drop_first() =~= Seq::<Seq<char>>::empty());
        assert(lines.drop_last() =~= Seq::<Seq<char>>::empty());
        assert(lines_text(lines) =~= lines[0] + seq!['\n'] + lines_text(lines.drop_first()));
    } else {
        let shorter = lines.drop_last();
        lemma_lines_text_front(shorter);
        assert(shorter.drop_first() =~= lines.drop_first().drop_last());
        assert(lines.drop_first().last() == lines.last());
        assert(lines_text(lines) =~= lines[0] + seq!['\n'] + lines_text(lines.drop_first()));
    }
}

proof fn lemma_parse_line_then(line: Seq<char>, rest: Seq<char>, state: (Seq<EntryView>, Seq<char>))
    requires
        !line.contains('\n'),
    ensures
        parsed_from(line + seq!['\n'] + rest, state) == parsed_from(rest, parsed_line(state, line)),
{
    let text = line + seq!['\n'] + rest;
    assert forall|j: int| 0 <= j < line.len() implies text[j] != '\n' by {
        assert(text[j] == line[j]);
        if line[j] == '\n' {
            assert(line.contains('\n'));
        }
    }
    crate::seq_util::lemma_index_of_first_is(text, '\n', line.len() as int);
    assert(text.take(line.len() as int) =~= line);
    assert(text.skip(line.len() as int + 1) =~= rest);
}

proof fn lemma_parse_lines(lines: Seq<Seq<char>>, state: (Seq<EntryView>, Seq<char>))
    requires
        forall|i: int| 0 <= i < lines.len() ==> !(#[trigger] lines[i]).contains('\n'),
    ensures
        parsed_from(lines_text(lines), state) == parsed_lines(lines, state),
    decreases lines.len(),
{
    if lines.len() == 0 {
        crate::seq_util::lemma_index_of_first_facts(Seq::<char>::empty(), '\n');
        assert(trim(Seq::<char>::empty()).len() == 0);
    } else {
        lemma_lines_text_front(lines);
        assert(!lines[0].contains('\n'));
        lemma_parse_line_then(lines[0], lines_text(lines.drop_first()), state);
        assert forall|i: int| 0 <= i < lines.drop_first().len() implies !(
        #[trigger] lines.drop_first()[i]).contains('\n') by {
            assert(lines.drop_first()[i] == lines[i + 1]);
        }
        lemma_parse_lines(lines.drop_first(), parsed_line(state, lines[0]));
    }
}

proof fn lemma_parse_lines_append(
    first: Seq<Seq<char>>,
    second: Seq<Seq<char>>,
    state: (Seq<EntryView>, Seq<char>),
)
    ensures
        parsed_lines(first + second, state) == parsed_lines(second, parsed_lines(first, state)),
    decreases first.len(),
{
    if first.len() > 0 {
        assert((first + second).drop_first() =~= first.drop_first() + second);
        assert((first + second)[0] == first[0]);
        lemma_parse_lines_append(first.drop_first(), second, parsed_line(state, first[0]));
    } else {
        assert(first + second =~= second);
    }
}

/// A key that reads back as itself from a `key=value` line.
pub open spec fn clean_key(key: Seq<char>) -> bool {
    &&& key.len() > 0
    &&& is_trimmed(key)
    &&& !key.contains('=')
    &&& !key.contains('\n')
    &&& key[0] != ';'
    &&& key[0] != '#'
    &&& key[0] != '['
}

/// A value or a section name that reads back as itself.
pub open spec fn clean_text(text: Seq<char>) -> bool {
    is_trimmed(text) && !text.contains('\n')
}

proof fn lemma_setting_parses(key: Seq<char>, value: Seq<char>, state: (Seq<EntryView>, Seq<char>))
    requires
        clean_key(key),
        clean_text(value),
    ensures
        parsed_line(state, setting(key, value)) == (
            upserted(state.0, EntryView { section: state.1, key, value }),
            state.1,
        ),
{
    let line = setting(key, value);
    assert(line[0] == key[0]);
    if value.len() > 0 {
        assert(line.last() == value.last());
    } else {
        assert(line.last() == '=');
    }
    lemma_trim_trimmed(line);
    assert forall|j: int| 0 <= j < key.len() implies line[j] != '=' by {
        assert(line[j] == key[j]);
        if key[j] == '=' {
            assert(key.contains('='));
        }
    }
    crate::seq_util::lemma_index_of_first_is(line, '=', key.len() as int);
    assert(line.take(key.len() as int) =~= key);
    assert(line.skip(key.len() as int + 1) =~= value);
    lemma_trim_trimmed(key);
    lemma_trim_trimmed(value);
}

proof fn lemma_header_parses(name: Seq<char>, state: (Seq<EntryView>, Seq<char>))
    requires
        clean_text(name),
    ensures
        parsed_line(state, header(name)) == (state.0, name),
{
    let line = header(name);
    lemma_trim_trimmed(line);
    assert(line.subrange(1, line.len() - 1) =~= name);
    lemma_trim_trimmed(name);
}

proof fn lemma_blank_parses(state: (Seq<EntryView>, Seq<char>))
    ensures
        parsed_line(state, Seq::empty()) == state,
{
    assert(trim(Seq::<char>::empty()).len() == 0);
}


/// The lines `key=value` of `keys` with `values`, in order.
pub open spec fn setting_lines(keys: Seq<Seq<char>>, values: Seq<Seq<char>>) -> Seq<Seq<char>> {
    Seq::new(keys.len(), |i: int| setting(keys[i], values[i]))
}

/// The entries of `keys` with `values` in `section`, in order.
pub open spec fn section_entries(
    section: Seq<char>,
    keys: Seq<Seq<char>>,
    values: Seq<Seq<char>>,
) -> Seq<EntryView> {
    Seq::new(keys.len(), |i: int| EntryView { section, key: keys[i], value: values[i] })
}

/// No two of `keys` are equal but for ASCII case.
pub open spec fn distinct_keys(keys: Seq<Seq<char>>) -> bool {
    forall|i: int, j: int|
        0 <= i < keys.len() && 0 <= j < keys.len() && i != j ==> !ascii_case_equal(
            #[trigger] keys[i],
            #[trigger] keys[j],
        )
}

proof fn lemma_settings_parse(
    keys: Seq<Seq<char>>,
    values: Seq<Seq<char>>,
    entries: Seq<EntryView>,
    section: Seq<char>,
)
    requires
        keys.len() == values.len(),
        forall|i: int| 0 <= i < keys.len() ==> clean_key(#[trigger] keys[i]),
        forall|i: int| 0 <= i < values.len() ==> clean_text(#[trigger] values[i]),
        forall|i: int, j: int|
            0 <= i < keys.len() && 0 <= j < entries.len() ==> !names(
                #[trigger] entries[j],
                section,
                #[trigger] keys[i],
            ),
        distinct_keys(keys),
    ensures
        parsed_lines(setting_lines(keys, values), (entries, section)) == (
            entries + section_entries(section, keys, values),
            section,
        ),
    decreases keys.len(),
{
    if keys.len() == 0 {
        assert(setting_lines(keys, values) =~= Seq::<Seq<char>>::empty());
        assert(entries + section_entries(section, keys, values) =~= entries);
    } else {
        let entry = EntryView { section, key: keys[0], value: values[0] };
        assert(setting_lines(keys, values)[0] == setting(keys[0], values[0]));
        lemma_setting_parses(keys[0], values[0], (entries, section));
        lemma_entry_index_from(entries, section, keys[0], 0);
        assert forall|j: int| 0 <= j < entries.len() implies !names(#[trigger] entries[j], section, keys[0]) by {
            assert(!names(entries[j], section, keys[0]));
        }
        assert(upserted(entries, entry) == entries.push(entry));
        let rest_keys = keys.drop_first();
        let rest_values = values.drop_first();
        let grown = entries.push(entry);
        lemma_ascii_case_equivalence(section, section, section);
        assert forall|i: int, j: int| 0 <= i < rest_keys.len() && 0 <= j < grown.len() implies !names(
            #[trigger] grown[j],
            section,
            #[trigger] rest_keys[i],
        ) by {
            assert(rest_keys[i] == keys[i + 1]);
            if j < entries.len() {
                assert(grown[j] == entries[j]);
                assert(!names(entries[j], section, keys[i + 1]));
            } else {
                assert(!ascii_case_equal(keys[0], keys[i + 1]));
            }
        }
        assert forall|i: int| 0 <= i < rest_keys.len() implies clean_key(#[trigger] rest_keys[i]) by {
            assert(rest_keys[i] == keys[i + 1]);
        }
        assert forall|i: int| 0 <= i < rest_values.len() implies clean_text(#[trigger] rest_values[i]) by {
            assert(rest_values[i] == values[i + 1]);
        }
        assert forall|i: int, j: int|
            0 <= i < rest_keys.len() && 0 <= j < rest_keys.len() && i != j implies !ascii_case_equal(
            #[trigger] rest_keys[i],
            #[trigger] rest_keys[j],
        ) by {
            assert(rest_keys[i] == keys[i + 1] && rest_keys[j] == keys[j + 1]);
        }
        lemma_settings_parse(rest_keys, rest_values, grown, section);
        assert(setting_lines(keys, values).drop_first() =~= setting_lines(rest_keys, rest_values));
        assert(grown + section_entries(section, rest_keys, rest_values) =~= entries + section_entries(
            section,
            keys,
            values,
        ));
    }
}

proof fn lemma_found_in_section(
    before: Seq<EntryView>,
    section: Seq<char>,
    keys: Seq<Seq<char>>,
    values: Seq<Seq<char>>,
    after: Seq<EntryView>,
    index: int,
)
    requires
        keys.len() == values.len(),
        0 <= index < keys.len(),
        forall|j: int| 0 <= j < before.len() ==> !ascii_case_equal(#[trigger] before[j].section, section),
        distinct_keys(keys),
    ensures
        found_value(before + section_entries(section, keys, values) + after, section, keys[index])
            == Some(values[index]),
{
    let entries = before + section_entries(section, keys, values) + after;
    let at = before.len() + index;
    lemma_ascii_case_equivalence(section, section, section);
    lemma_ascii_case_equivalence(keys[index], keys[index], keys[index]);
    assert(entries[at] == (EntryView { section, key: keys[index], value: values[index] }));
    assert forall|j: int| 0 <= j < at implies !names(#[trigger] entries[j], section, keys[index]) by {
        if j < before.len() {
            assert(entries[j] == before[j]);
        } else {
            assert(entries[j].key == keys[j - before.len()]);
            assert(keys[j - before.len()] != keys[index] || j - before.len() == index);
        }
    }
    lemma_entry_index_is(entries, section, keys[index], at);
}


/// The keys of the `[General]` section, in the order they are written.
pub open spec fn general_keys() -> Seq<Seq<char>> {
    seq![
        "Autostart"@,
        "ReplaceAltTab"@,
        "ReplaceWinTab"@,
        "TypedSearch"@,
        "ReleaseAltSwitches"@,
        "ReleaseRmbSwitches"@,
        "RmbWheelSwitching"@,
        "MouseOverSelection"@,
    ]
}

/// The values of the `[General]` section of `settings`, in the order they are written.
pub open spec fn general_values(settings: SettingsView) -> Seq<Seq<char>> {
    seq![
        bool_word(settings.general.autostart),
        bool_word(settings.general.replace_alt_tab),
        bool_word(settings.general.replace_win_tab),
        bool_word(settings.general.typed_search),
        bool_word(settings.general.release_alt_switches),
        bool_word(settings.general.release_right_button_switches),
        bool_word(settings.general.right_button_wheel_switching),
        bool_word(settings.general.mouse_over_selection),
    ]
}

/// The keys of the `[Appearance]` section, in the order they are written.
pub open spec fn appearance_keys() -> Seq<Seq<char>> {
    seq![
        "Icon"@,
        "Theme"@,
        "CompactList"@,
        "LargeIcons"@,
        "ShowNumbers"@,
        "ShowAppNames"@,
        "VisibleBorders"@,
        "Preview"@,
        "FullDesktopPreview"@,
    ]
}

/// The values of the `[Appearance]` section of `settings`, in the order they are written.
pub open spec fn appearance_values(settings: SettingsView) -> Seq<Seq<char>> {
    seq![
        icon_name(settings.appearance.icon),
        theme_name(settings.appearance.theme),
        bool_word(settings.appearance.compact_list),
        bool_word(settings.appearance.large_icons),
        bool_word(settings.appearance.show_numbers),
        bool_word(settings.appearance.show_app_names),
        bool_word(settings.appearance.visible_borders),
        bool_word(settings.appearance.preview),
        bool_word(settings.appearance.full_desktop_preview),
    ]
}

/// The keys of the `[Monitor]` section, in the order they are written.
pub open spec fn monitor_keys() -> Seq<Seq<char>> {
    seq!["Mode"@, "UseCurrentMonitorFilter"@]
}

/// The values of the `[Monitor]` section of `settings`, in the order they are written.
pub open spec fn monitor_values(settings: SettingsView) -> Seq<Seq<char>> {
    seq![
        settings.monitor.monitor_mode,
        bool_word(settings.monitor.use_current_monitor_filter),
    ]
}

proof fn lemma_section_lines(settings: SettingsView)
    ensures
        general_lines(settings) == seq![header("General"@)] + setting_lines(
            general_keys(),
            general_values(settings),
        ),
        appearance_lines(settings) == seq![Seq::empty(), header("Appearance"@)] + setting_lines(
            appearance_keys(),
            appearance_values(settings),
        ),
        monitor_lines(settings) == seq![Seq::empty(), header("Monitor"@)] + setting_lines(
            monitor_keys(),
            monitor_values(settings),
        ),
{
    assert(general_lines(settings) =~= seq![header("General"@)] + setting_lines(
        general_keys(),
        general_values(settings),
    ));
    assert(appearance_lines(settings) =~= seq![Seq::empty(), header("Appearance"@)]
        + setting_lines(appearance_keys(), appearance_values(settings)));
    assert(monitor_lines(settings) =~= seq![Seq::empty(), header("Monitor"@)] + setting_lines(
        monitor_keys(),
        monitor_values(settings),
    ));
}


proof fn lemma_differ_at(a: Seq<char>, b: Seq<char>, at: int)
    requires
        a.len() != b.len() || (0 <= at < a.len() && at < b.len() && ascii_folded(a[at])
            != ascii_folded(b[at])),
    ensures
        !ascii_case_equal(a, b),
{
}

proof fn lemma_general_keys()
    ensures
        forall|i: int| 0 <= i < general_keys().len() ==> clean_key(#[trigger] general_keys()[i]),
        distinct_keys(general_keys()),
{
    reveal_strlit("Autostart");
    reveal_strlit("ReplaceAltTab");
    reveal_strlit("ReplaceWinTab");
    reveal_strlit("TypedSearch");
    reveal_strlit("ReleaseAltSwitches");
    reveal_strlit("ReleaseRmbSwitches");
    reveal_strlit("RmbWheelSwitching");
    reveal_strlit("MouseOverSelection");
    let keys = general_keys();
    assert forall|i: int| 0 <= i < keys.len() implies clean_key(#[trigger] keys[i]) by {
        assert(!keys[i].contains('='));
        assert(!keys[i].contains('\n'));
    }
    assert forall|i: int, j: int| 0 <= i < keys.len() && 0 <= j < keys.len() && i != j implies !ascii_case_equal(
        #[trigger] keys[i],
        #[trigger] keys[j],
    ) by {
        if keys[i].len() == keys[j].len() && ascii_folded(keys[i][0]) == ascii_folded(keys[j][0]) {
            lemma_differ_at(keys[i], keys[j], 7);
        } else {
            lemma_differ_at(keys[i], keys[j], 0);
        }
    }
}


proof fn lemma_appearance_keys()
    ensures
        forall|i: int| 0 <= i < appearance_keys().len() ==> clean_key(#[trigger] appearance_keys()[i]),
        distinct_keys(appearance_keys()),
{
    reveal_strlit("Icon");
    reveal_strlit("Theme");
    reveal_strlit("CompactList");
    reveal_strlit("LargeIcons");
    reveal_strlit("ShowNumbers");
    reveal_strlit("ShowAppNames");
    reveal_strlit("VisibleBorders");
    reveal_strlit("Preview");
    reveal_strlit("FullDesktopPreview");
    let keys = appearance_keys();
    assert forall|i: int| 0 <= i < keys.len() implies clean_key(#[trigger] keys[i]) by {
        assert(!keys[i].contains('='));
        assert(!keys[i].contains('\n'));
    }
    assert forall|i: int, j: int| 0 <= i < keys.len() && 0 <= j < keys.len() && i != j implies !ascii_case_equal(
        #[trigger] keys[i],
        #[trigger] keys[j],
    ) by {
        lemma_differ_at(keys[i], keys[j], 0);
    }
}

proof fn lemma_monitor_keys()
    ensures
        forall|i: int| 0 <= i < monitor_keys().len() ==> clean_key(#[trigger] monitor_keys()[i]),
        distinct_keys(monitor_keys()),
{
    reveal_strlit("Mode");
    reveal_strlit("UseCurrentMonitorFilter");
    let keys = monitor_keys();
    assert forall|i: int| 0 <= i < keys.len() implies clean_key(#[trigger] keys[i]) by {
        assert(!keys[i].contains('='));
        assert(!keys[i].contains('\n'));
    }
    assert forall|i: int, j: int| 0 <= i < keys.len() && 0 <= j < keys.len() && i != j implies !ascii_case_equal(
        #[trigger] keys[i],
        #[trigger] keys[j],
    ) by {
        lemma_differ_at(keys[i], keys[j], 0);
    }
}

proof fn lemma_section_names()
    ensures
        clean_text("General"@),
        clean_text("Appearance"@),
        clean_text("Monitor"@),
        !ascii_case_equal("General"@, "Appearance"@),
        !ascii_case_equal("General"@, "Monitor"@),
        !ascii_case_equal("Appearance"@, "Monitor"@),
{
    reveal_strlit("General");
    reveal_strlit("Appearance");
    reveal_strlit("Monitor");
    assert(!"General"@.contains('\n'));
    assert(!"Appearance"@.contains('\n'));
    assert(!"Monitor"@.contains('\n'));
    lemma_differ_at("General"@, "Appearance"@, 0);
    lemma_differ_at("General"@, "Monitor"@, 0);
    lemma_differ_at("Appearance"@, "Monitor"@, 0);
}

proof fn lemma_bool_word_clean(flag: bool)
    ensures
        clean_text(bool_word(flag)),
{
    reveal_strlit("true");
    reveal_strlit("false");
    assert(!"true"@.contains('\n'));
    assert(!"false"@.contains('\n'));
}

proof fn lemma_icon_name_clean(color: IconColor)
    ensures
        clean_text(icon_name(color)),
{
    match color {
        IconColor::Azure => {
            reveal_strlit("Azure");
            assert(!"Azure"@.contains('\n'));
        },
        IconColor::Copper => {
            reveal_strlit("Copper");
            assert(!"Copper"@.contains('\n'));
        },
        IconColor::Ember => {
            reveal_strlit("Ember");
            assert(!"Ember"@.contains('\n'));
        },
        IconColor::Indigo => {
            reveal_strlit("Indigo");
            assert(!"Indigo"@.contains('\n'));
        },
        IconColor::Orchid => {
            reveal_strlit("Orchid");
            assert(!"Orchid"@.contains('\n'));
        },
        IconColor::Rosewood => {
            reveal_strlit("Rosewood");
            assert(!"Rosewood"@.contains('\n'));
        },
        IconColor::Vermilion => {
            reveal_strlit("Vermilion");
            assert(!"Vermilion"@.contains('\n'));
        },
        IconColor::Violet => {
            reveal_strlit("Violet");
            assert(!"Violet"@.contains('\n'));
        },
    }
}

proof fn lemma_theme_name_clean(theme: Theme)
    ensures
        clean_text(theme_name(theme)),
{
    match theme {
        Theme::Auto => {
            reveal_strlit("Auto");
            assert(!"Auto"@.contains('\n'));
        },
        Theme::Light => {
            reveal_strlit("Light");
            assert(!"Light"@.contains('\n'));
        },
        Theme::Dark => {
            reveal_strlit("Dark");
            assert(!"Dark"@.contains('\n'));
        },
    }
}

proof fn lemma_written_values_clean(settings: SettingsView)
    requires
        clean_text(settings.monitor.monitor_mode),
    ensures
        forall|i: int| 0 <= i < general_values(settings).len() ==> clean_text(
            #[trigger] general_values(settings)[i],
        ),
        forall|i: int| 0 <= i < appearance_values(settings).len() ==> clean_text(
            #[trigger] appearance_values(settings)[i],
        ),
        forall|i: int| 0 <= i < monitor_values(settings).len() ==> clean_text(
            #[trigger] monitor_values(settings)[i],
        ),
{
    lemma_bool_word_clean(true);
    lemma_bool_word_clean(false);
    lemma_icon_name_clean(settings.appearance.icon);
    lemma_theme_name_clean(settings.appearance.theme);
}


/// No line of `lines` holds a line break.
pub open spec fn single_lines(lines: Seq<Seq<char>>) -> bool {
    forall|i: int| 0 <= i < lines.len() ==> !(#[trigger] lines[i]).contains('\n')
}

proof fn lemma_single_lines_join(first: Seq<Seq<char>>, second: Seq<Seq<char>>)
    requires
        single_lines(first),
        single_lines(second),
    ensures
        single_lines(first + second),
{
    assert forall|i: int| 0 <= i < (first + second).len() implies !(#[trigger] (first
        + second)[i]).contains('\n') by {
        if i < first.len() {
            assert((first + second)[i] == first[i]);
        } else {
            assert((first + second)[i] == second[i - first.len()]);
        }
    }
}

proof fn lemma_no_newline_join(a: Seq<char>, b: Seq<char>)
    requires
        !a.contains('\n'),
        !b.contains('\n'),
    ensures
        !(a + b).contains('\n'),
{
    if (a + b).contains('\n') {
        let i = choose|i: int| 0 <= i < (a + b).len() && (a + b)[i] == '\n';
        if i < a.len() {
            assert(a[i] == '\n');
            assert(a.contains('\n'));
        } else {
            assert(b[i - a.len()] == '\n');
            assert(b.contains('\n'));
        }
    }
}

proof fn lemma_setting_lines_single(keys: Seq<Seq<char>>, values: Seq<Seq<char>>)
    requires
        keys.len() == values.len(),
        forall|i: int| 0 <= i < keys.len() ==> clean_key(#[trigger] keys[i]),
        forall|i: int| 0 <= i < values.len() ==> clean_text(#[trigger] values[i]),
    ensures
        single_lines(setting_lines(keys, values)),
{
    assert forall|i: int| 0 <= i < setting_lines(keys, values).len() implies !(
    #[trigger] setting_lines(keys, values)[i]).contains('\n') by {
        assert(clean_key(keys[i]));
        assert(clean_text(values[i]));
        assert(!seq!['='].contains('\n'));
        lemma_no_newline_join(keys[i], seq!['=']);
        lemma_no_newline_join(keys[i] + seq!['='], values[i]);
    }
}

proof fn lemma_header_single(name: Seq<char>)
    requires
        clean_text(name),
    ensures
        !header(name).contains('\n'),
{
    assert(!seq!['['].contains('\n'));
    assert(!seq![']'].contains('\n'));
    lemma_no_newline_join(seq!['['], name);
    lemma_no_newline_join(seq!['['] + name, seq![']']);
}


/// The entries that the known sections of `settings` are read back as.
pub open spec fn written_entries(settings: SettingsView) -> Seq<EntryView> {
    section_entries("General"@, general_keys(), general_values(settings)) + section_entries(
        "Appearance"@,
        appearance_keys(),
        appearance_values(settings),
    ) + section_entries("Monitor"@, monitor_keys(), monitor_values(settings))
}

proof fn lemma_prefix_parses(lines: Seq<Seq<char>>, state: (Seq<EntryView>, Seq<char>), name: Seq<char>)
    requires
        clean_text(name),
        lines == seq![header(name)] || lines == seq![Seq::<char>::empty(), header(name)],
    ensures
        parsed_lines(lines, state) == (state.0, name),
{
    lemma_header_parses(name, state);
    lemma_blank_parses(state);
    let single = seq![header(name)];
    assert(single.drop_first() =~= Seq::<Seq<char>>::empty());
    assert(parsed_lines(single, state) == parsed_lines(
        Seq::<Seq<char>>::empty(),
        parsed_line(state, header(name)),
    ));
    if lines.len() == 2 {
        assert(lines[0] == Seq::<char>::empty());
        assert(lines.drop_first() =~= single);
        assert(parsed_lines(lines, state) == parsed_lines(single, parsed_line(state, lines[0])));
    }
}

proof fn lemma_other_section(entries: Seq<EntryView>, section: Seq<char>, keys: Seq<Seq<char>>)
    requires
        forall|j: int| 0 <= j < entries.len() ==> !ascii_case_equal(#[trigger] entries[j].section, section),
    ensures
        forall|i: int, j: int|
            0 <= i < keys.len() && 0 <= j < entries.len() ==> !names(
                #[trigger] entries[j],
                section,
                #[trigger] keys[i],
            ),
{
}

#[verifier::spinoff_prover]
#[verifier::rlimit(40)]
proof fn lemma_known_entries(settings: SettingsView)
    requires
        clean_text(settings.monitor.monitor_mode),
    ensures
        parsed_entries(known_text(settings)) == written_entries(settings),
        single_lines(known_lines(settings)),
        parsed_lines(known_lines(settings), (Seq::empty(), Seq::empty())) == (
            written_entries(settings),
            "Monitor"@,
        ),
{
    let general = "General"@;
    let appearance = "Appearance"@;
    let monitor = "Monitor"@;
    lemma_section_lines(settings);
    lemma_general_keys();
    lemma_appearance_keys();
    lemma_monitor_keys();
    lemma_section_names();
    lemma_written_values_clean(settings);
    let gh = seq![header(general)];
    let ah = seq![Seq::<char>::empty(), header(appearance)];
    let mh = seq![Seq::<char>::empty(), header(monitor)];
    let gl = setting_lines(general_keys(), general_values(settings));
    let al = setting_lines(appearance_keys(), appearance_values(settings));
    let ml = setting_lines(monitor_keys(), monitor_values(settings));
    lemma_setting_lines_single(general_keys(), general_values(settings));
    lemma_setting_lines_single(appearance_keys(), appearance_values(settings));
    lemma_setting_lines_single(monitor_keys(), monitor_values(settings));
    lemma_header_single(general);
    lemma_header_single(appearance);
    lemma_header_single(monitor);
    assert(!Seq::<char>::empty().contains('\n'));
    assert(single_lines(gh));
    assert(single_lines(ah));
    assert(single_lines(mh));
    lemma_single_lines_join(gh, gl);
    lemma_single_lines_join(ah, al);
    lemma_single_lines_join(mh, ml);
    lemma_single_lines_join(gh + gl, ah + al);
    lemma_single_lines_join(gh + gl + (ah + al), mh + ml);
    let lines = known_lines(settings);
    assert(lines == gh + gl + (ah + al) + (mh + ml));
    let start = (Seq::<EntryView>::empty(), Seq::<char>::empty());
    lemma_parse_lines(lines, start);
    lemma_parse_lines_append(gh + gl + (ah + al), mh + ml, start);
    lemma_parse_lines_append(gh + gl, ah + al, start);
    lemma_parse_lines_append(gh, gl, start);
    lemma_prefix_parses(gh, start, general);
    lemma_settings_parse(general_keys(), general_values(settings), Seq::empty(), general);
    let g_entries = section_entries(general, general_keys(), general_values(settings));
    assert(Seq::<EntryView>::empty() + g_entries =~= g_entries);
    let after_general = (g_entries, general);
    lemma_parse_lines_append(ah, al, after_general);
    lemma_prefix_parses(ah, after_general, appearance);
    lemma_other_section(g_entries, appearance, appearance_keys());
    lemma_settings_parse(appearance_keys(), appearance_values(settings), g_entries, appearance);
    let a_entries = section_entries(appearance, appearance_keys(), appearance_values(settings));
    let after_appearance = (g_entries + a_entries, appearance);
    lemma_parse_lines_append(mh, ml, after_appearance);
    lemma_prefix_parses(mh, after_appearance, monitor);
    assert forall|j: int| 0 <= j < (g_entries + a_entries).len() implies !ascii_case_equal(
        #[trigger] (g_entries + a_entries)[j].section,
        monitor,
    ) by {
        if j < g_entries.len() {
            assert((g_entries + a_entries)[j] == g_entries[j]);
        } else {
            assert((g_entries + a_entries)[j] == a_entries[j - g_entries.len()]);
        }
    }
    lemma_other_section(g_entries + a_entries, monitor, monitor_keys());
    lemma_settings_parse(monitor_keys(), monitor_values(settings), g_entries + a_entries, monitor);
}


#[verifier::spinoff_prover]
#[verifier::rlimit(60)]
proof fn lemma_written_entries_read_back(settings: SettingsView, tail: Seq<EntryView>)
    requires
        settings.monitor.monitor_mode.len() > 0,
    ensures
        settings_of(written_entries(settings) + tail) == settings,
{
    let general = "General"@;
    let appearance = "Appearance"@;
    let monitor = "Monitor"@;
    lemma_general_keys();
    lemma_appearance_keys();
    lemma_monitor_keys();
    lemma_section_names();
    let g = section_entries(general, general_keys(), general_values(settings));
    let a = section_entries(appearance, appearance_keys(), appearance_values(settings));
    let m = section_entries(monitor, monitor_keys(), monitor_values(settings));
    let entries = written_entries(settings) + tail;
    assert(Seq::<EntryView>::empty() + g + (a + m + tail) =~= entries);
    assert(g + a + (m + tail) =~= entries);
    assert(g + a + m + tail =~= entries);
    assert forall|j: int| 0 <= j < g.len() implies !ascii_case_equal(#[trigger] g[j].section, appearance) by {}
    assert forall|j: int| 0 <= j < (g + a).len() implies !ascii_case_equal(
        #[trigger] (g + a)[j].section,
        monitor,
    ) by {
        if j < g.len() {
            assert((g + a)[j] == g[j]);
        } else {
            assert((g + a)[j] == a[j - g.len()]);
        }
    }
    assert forall|k: int| 0 <= k < 8 implies found_value(entries, general, #[trigger] general_keys()[k])
        == Some(general_values(settings)[k]) by {
        lemma_found_in_section(Seq::empty(), general, general_keys(), general_values(settings), a + m + tail, k);
    }
    assert forall|k: int| 0 <= k < 9 implies found_value(
        entries,
        appearance,
        #[trigger] appearance_keys()[k],
    ) == Some(appearance_values(settings)[k]) by {
        lemma_found_in_section(g, appearance, appearance_keys(), appearance_values(settings), m + tail, k);
    }
    lemma_found_in_section(g + a, monitor, monitor_keys(), monitor_values(settings), tail, 0);
    lemma_found_in_section(g + a, monitor, monitor_keys(), monitor_values(settings), tail, 1);
    law_written_values_read_back(settings.appearance.icon, settings.appearance.theme, true);
    law_written_values_read_back(settings.appearance.icon, settings.appearance.theme, false);
    assert(found_value(entries, general, "Autostart"@) == Some(general_values(settings)[0]));
    assert(found_value(entries, general, "ReplaceAltTab"@) == Some(general_values(settings)[1]));
    assert(found_value(entries, general, "ReplaceWinTab"@) == Some(general_values(settings)[2]));
    assert(found_value(entries, general, "TypedSearch"@) == Some(general_values(settings)[3]));
    assert(found_value(entries, general, "ReleaseAltSwitches"@) == Some(general_values(settings)[4]));
    assert(found_value(entries, general, "ReleaseRmbSwitches"@) == Some(general_values(settings)[5]));
    assert(found_value(entries, general, "RmbWheelSwitching"@) == Some(general_values(settings)[6]));
    assert(found_value(entries, general, "MouseOverSelection"@) == Some(general_values(settings)[7]));
    assert(found_value(entries, appearance, "Icon"@) == Some(appearance_values(settings)[0]));
    assert(found_value(entries, appearance, "Theme"@) == Some(appearance_values(settings)[1]));
    assert(found_value(entries, appearance, "CompactList"@) == Some(appearance_values(settings)[2]));
    assert(found_value(entries, appearance, "LargeIcons"@) == Some(appearance_values(settings)[3]));
    assert(found_value(entries, appearance, "ShowNumbers"@) == Some(appearance_values(settings)[4]));
    assert(found_value(entries, appearance, "ShowAppNames"@) == Some(appearance_values(settings)[5]));
    assert(found_value(entries, appearance, "VisibleBorders"@) == Some(appearance_values(settings)[6]));
    assert(found_value(entries, appearance, "Preview"@) == Some(appearance_values(settings)[7]));
    assert(found_value(entries, appearance, "FullDesktopPreview"@) == Some(appearance_values(settings)[8]));
    assert(found_value(entries, monitor, "Mode"@) == Some(monitor_values(settings)[0]));
    assert(found_value(entries, monitor, "UseCurrentMonitorFilter"@) == Some(monitor_values(settings)[1]));
}

proof fn lemma_parse_lines_then(
    lines: Seq<Seq<char>>,
    rest: Seq<char>,
    state: (Seq<EntryView>, Seq<char>),
)
    requires
        single_lines(lines),
    ensures
        parsed_from(lines_text(lines) + rest, state) == parsed_from(rest, parsed_lines(lines, state)),
    decreases lines.len(),
{
    if lines.len() == 0 {
        assert(lines_text(lines) + rest =~= rest);
    } else {
        lemma_lines_text_front(lines);
        assert(!lines[0].contains('\n'));
        let tail = lines_text(lines.drop_first()) + rest;
        assert(lines_text(lines) + rest =~= lines[0] + seq!['\n'] + tail);
        lemma_parse_line_then(lines[0], tail, state);
        assert forall|i: int| 0 <= i < lines.drop_first().len() implies !(
        #[trigger] lines.drop_first()[i]).contains('\n') by {
            assert(lines.drop_first()[i] == lines[i + 1]);
        }
        lemma_parse_lines_then(lines.drop_first(), rest, parsed_line(state, lines[0]));
    }
}

/// Whether `entries` begins with `written` and holds nothing but entries `Settings` has no field
/// for after it.
pub open spec fn keeps_written(entries: Seq<EntryView>, written: Seq<EntryView>) -> bool {
    &&& entries.len() >= written.len()
    &&& forall|j: int| 0 <= j < written.len() ==> #[trigger] entries[j] == written[j]
    &&& forall|j: int| written.len() <= j < entries.len() ==> !is_known(#[trigger] entries[j])
}

/// Whether `entry` can be written as a line of its own section and read back as itself.
pub open spec fn writable_entry(entry: EntryView) -> bool {
    &&& entry.section.len() > 0
    &&& clean_text(entry.section)
    &&& entry.key.len() > 0
    &&& is_trimmed(entry.key)
    &&& !entry.key.contains('=')
    &&& !entry.key.contains('\n')
    &&& entry.key[0] != ';'
    &&& entry.key[0] != '#'
    &&& (entry.key[0] == '[' ==> entry.value.len() == 0 || entry.value.last() != ']')
    &&& clean_text(entry.value)
}

proof fn lemma_known_follows(x: EntryView, y: EntryView)
    requires
        ascii_case_equal(x.section, y.section),
        x.key == y.key,
    ensures
        is_known(x) == is_known(y),
{
    if is_known(x) {
        let i = choose|i: int|
            0 <= i < known_keys().len() && names(x, #[trigger] known_keys()[i].0, known_keys()[i].1);
        lemma_ascii_case_equivalence(y.section, x.section, known_keys()[i].0);
        lemma_ascii_case_equivalence(x.section, y.section, y.section);
        assert(names(y, known_keys()[i].0, known_keys()[i].1));
    }
    if is_known(y) {
        let i = choose|i: int|
            0 <= i < known_keys().len() && names(y, #[trigger] known_keys()[i].0, known_keys()[i].1);
        lemma_ascii_case_equivalence(x.section, y.section, known_keys()[i].0);
        assert(names(x, known_keys()[i].0, known_keys()[i].1));
    }
}


proof fn lemma_upsert_unknown(entries: Seq<EntryView>, written: Seq<EntryView>, entry: EntryView)
    requires
        keeps_written(entries, written),
        forall|j: int| 0 <= j < written.len() ==> is_known(#[trigger] written[j]),
        !is_known(entry),
    ensures
        keeps_written(upserted(entries, entry), written),
{
    lemma_entry_index_from(entries, entry.section, entry.key, 0);
    match entry_index(entries, entry.section, entry.key) {
        Some(index) => {
            if index < written.len() {
                let found = entries[index];
                assert(found == written[index]);
                assert(is_known(found));
                lemma_ascii_case_equivalence(found.section, entry.section, entry.section);
                lemma_ascii_case_equivalence(found.key, entry.key, entry.key);
                let flipped = EntryView { section: entry.section, key: found.key, value: entry.value };
                lemma_known_follows(found, flipped);
                let i = choose|i: int|
                    0 <= i < known_keys().len() && names(
                        flipped,
                        #[trigger] known_keys()[i].0,
                        known_keys()[i].1,
                    );
                lemma_ascii_case_equivalence(entry.key, found.key, known_keys()[i].1);
                assert(names(entry, known_keys()[i].0, known_keys()[i].1));
                assert(false);
            }
        },
        None => {},
    }
}

proof fn lemma_entry_line_parses(entry: EntryView, state: (Seq<EntryView>, Seq<char>))
    requires
        writable_entry(entry),
    ensures
        parsed_line(state, setting(entry.key, entry.value)) == (
            upserted(state.0, EntryView { section: state.1, key: entry.key, value: entry.value }),
            state.1,
        ),
{
    let key = entry.key;
    let value = entry.value;
    let line = setting(key, value);
    assert(line[0] == key[0]);
    if value.len() > 0 {
        assert(line.last() == value.last());
    } else {
        assert(line.last() == '=');
    }
    lemma_trim_trimmed(line);
    assert forall|j: int| 0 <= j < key.len() implies line[j] != '=' by {
        assert(line[j] == key[j]);
        if key[j] == '=' {
            assert(key.contains('='));
        }
    }
    crate::seq_util::lemma_index_of_first_is(line, '=', key.len() as int);
    assert(line.take(key.len() as int) =~= key);
    assert(line.skip(key.len() as int + 1) =~= value);
    lemma_trim_trimmed(key);
    lemma_trim_trimmed(value);
}

proof fn lemma_no_newline_in_entry(entry: EntryView)
    requires
        writable_entry(entry),
    ensures
        !setting(entry.key, entry.value).contains('\n'),
        !header(entry.section).contains('\n'),
{
    assert(!seq!['='].contains('\n'));
    lemma_no_newline_join(entry.key, seq!['=']);
    lemma_no_newline_join(entry.key + seq!['='], entry.value);
    lemma_header_single(entry.section);
}

proof fn lemma_unknown_entry_opens(
    entry: EntryView,
    rest: Seq<char>,
    state: (Seq<EntryView>, Seq<char>),
)
    requires
        writable_entry(entry),
    ensures
        parsed_from(section_header(entry.section) + setting_line(entry.key, entry.value) + rest, state)
            == parsed_from(rest, (upserted(state.0, entry), entry.section)),
{
    lemma_no_newline_in_entry(entry);
    let line = setting(entry.key, entry.value);
    let head = header(entry.section);
    let text = section_header(entry.section) + setting_line(entry.key, entry.value) + rest;
    let after_blank = head + seq!['\n'] + (line + seq!['\n'] + rest);
    assert(text =~= Seq::<char>::empty() + seq!['\n'] + after_blank);
    assert(!Seq::<char>::empty().contains('\n'));
    lemma_parse_line_then(Seq::empty(), after_blank, state);
    lemma_blank_parses(state);
    lemma_parse_line_then(head, line + seq!['\n'] + rest, state);
    lemma_header_parses(entry.section, state);
    lemma_parse_line_then(line, rest, (state.0, entry.section));
    lemma_entry_line_parses(entry, (state.0, entry.section));
}

proof fn lemma_unknown_entry_continues(
    entry: EntryView,
    rest: Seq<char>,
    state: (Seq<EntryView>, Seq<char>),
)
    requires
        writable_entry(entry),
    ensures
        parsed_from(setting_line(entry.key, entry.value) + rest, state) == parsed_from(
            rest,
            (
                upserted(state.0, EntryView { section: state.1, key: entry.key, value: entry.value }),
                state.1,
            ),
        ),
{
    lemma_no_newline_in_entry(entry);
    let line = setting(entry.key, entry.value);
    assert(setting_line(entry.key, entry.value) + rest =~= line + seq!['\n'] + rest);
    lemma_parse_line_then(line, rest, state);
    lemma_entry_line_parses(entry, state);
}


/// Every entry of `entries` that `Settings` has no field for can be written and read back.
pub open spec fn writable_unknown_entries(entries: Seq<EntryView>) -> bool {
    forall|i: int| 0 <= i < entries.len() && !is_known(#[trigger] entries[i]) ==> writable_entry(entries[i])
}

proof fn lemma_unknown_entries_parse(
    entries: Seq<EntryView>,
    current: Option<Seq<char>>,
    state: (Seq<EntryView>, Seq<char>),
    written: Seq<EntryView>,
)
    requires
        keeps_written(state.0, written),
        forall|j: int| 0 <= j < written.len() ==> is_known(#[trigger] written[j]),
        current is Some ==> current == Some(state.1),
        writable_unknown_entries(entries),
    ensures
        keeps_written(parsed_from(unknown_text(entries, current), state).0, written),
    decreases entries.len(),
{
    if entries.len() == 0 {
        crate::seq_util::lemma_index_of_first_facts(Seq::<char>::empty(), '\n');
        lemma_blank_parses(state);
    } else {
        let entry = entries[0];
        let rest = entries.drop_first();
        assert(writable_unknown_entries(rest)) by {
            assert forall|i: int| 0 <= i < rest.len() && !is_known(#[trigger] rest[i]) implies writable_entry(
                rest[i],
            ) by {
                assert(rest[i] == entries[i + 1]);
            }
        }
        if is_known(entry) {
            lemma_unknown_entries_parse(rest, current, state, written);
        } else if opens_section(current, entry.section) {
            let next = Some(entry.section);
            lemma_unknown_entry_opens(entry, unknown_text(rest, next), state);
            lemma_upsert_unknown(state.0, written, entry);
            lemma_unknown_entries_parse(
                rest,
                next,
                (upserted(state.0, entry), entry.section),
                written,
            );
        } else {
            let read = EntryView { section: state.1, key: entry.key, value: entry.value };
            lemma_unknown_entry_continues(entry, unknown_text(rest, current), state);
            lemma_ascii_case_equivalence(state.1, entry.section, entry.section);
            lemma_known_follows(read, entry);
            lemma_upsert_unknown(state.0, written, read);
            lemma_unknown_entries_parse(rest, current, (upserted(state.0, read), state.1), written);
        }
    }
}


proof fn lemma_written_entries_known(settings: SettingsView)
    ensures
        forall|j: int| 0 <= j < written_entries(settings).len() ==> is_known(
            #[trigger] written_entries(settings)[j],
        ),
{
    let written = written_entries(settings);
    assert forall|j: int| 0 <= j < written.len() implies is_known(#[trigger] written[j]) by {
        let entry = written[j];
        assert(known_keys()[j].0 == entry.section && known_keys()[j].1 == entry.key);
        assert(names(entry, known_keys()[j].0, known_keys()[j].1));
    }
}

/// Whether no two entries of `entries` that `Settings` has no field for stand under the same
/// section and key, in any ASCII case, as in a document that parsing made.
pub open spec fn distinct_unknown_entries(entries: Seq<EntryView>) -> bool {
    forall|i: int, j: int|
        0 <= i < j < entries.len() && !is_known(#[trigger] entries[i]) && !is_known(
            #[trigger] entries[j],
        ) ==> !names(entries[j], entries[i].section, entries[i].key)
}

/// Whether no entry of `entries` that `Settings` has no field for stands under `section` and
/// `key`.
pub open spec fn names_no_unknown(entries: Seq<EntryView>, section: Seq<char>, key: Seq<char>) -> bool {
    forall|i: int| 0 <= i < entries.len() && !is_known(#[trigger] entries[i]) ==> !names(entries[i], section, key)
}

proof fn lemma_names_chain(a: EntryView, b: EntryView, section: Seq<char>, key: Seq<char>)
    ensures
        names(a, b.section, b.key) && names(b, section, key) ==> names(a, section, key),
        names(a, b.section, b.key) ==> names(b, a.section, a.key),
{
    lemma_ascii_case_equivalence(a.section, b.section, section);
    lemma_ascii_case_equivalence(a.key, b.key, key);
}

proof fn lemma_upsert_keeps_others(
    entries: Seq<EntryView>,
    x: EntryView,
    section: Seq<char>,
    key: Seq<char>,
)
    requires
        !names(x, section, key),
    ensures
        found_value(upserted(entries, x), section, key) == found_value(entries, section, key),
{
    lemma_entry_index_from(entries, x.section, x.key, 0);
    let after = upserted(entries, x);
    assert forall|j: int| 0 <= j < entries.len() implies names(#[trigger] after[j], section, key)
        == names(entries[j], section, key) by {
        match entry_index(entries, x.section, x.key) {
            Some(index) => {
                if j == index {
                    let y = entries[index];
                    lemma_names_chain(y, x, section, key);
                    lemma_names_chain(x, y, section, key);
                }
            },
            None => {},
        }
    }
    lemma_entry_index_from(entries, section, key, 0);
    lemma_entry_index_from(after, section, key, 0);
    match entry_index(entries, section, key) {
        Some(index) => {
            assert(names(after[index], section, key));
            lemma_entry_index_is(after, section, key, index);
            match entry_index(entries, x.section, x.key) {
                Some(at) => {
                    if at == index {
                        let y = entries[index];
                        lemma_names_chain(x, y, section, key);
                        lemma_names_chain(y, x, section, key);
                    }
                },
                None => {},
            }
        },
        None => {
            match entry_index(after, section, key) {
                Some(found) => {
                    assert(names(after[found], section, key));
                    if found < entries.len() {
                        assert(names(entries[found], section, key));
                    }
                },
                None => {},
            }
        },
    }
}

proof fn lemma_unknown_entries_values(
    entries: Seq<EntryView>,
    current: Option<Seq<char>>,
    state: (Seq<EntryView>, Seq<char>),
)
    requires
        current is Some ==> current == Some(state.1),
        writable_unknown_entries(entries),
        distinct_unknown_entries(entries),
    ensures
        forall|section: Seq<char>, key: Seq<char>|
            names_no_unknown(entries, section, key) ==> #[trigger] found_value(
                parsed_from(unknown_text(entries, current), state).0,
                section,
                key,
            ) == found_value(state.0, section, key),
        forall|i: int|
            0 <= i < entries.len() && !is_known(#[trigger] entries[i]) ==> found_value(
                parsed_from(unknown_text(entries, current), state).0,
                entries[i].section,
                entries[i].key,
            ) == Some(entries[i].value),
    decreases entries.len(),
{
    if entries.len() == 0 {
        crate::seq_util::lemma_index_of_first_facts(Seq::<char>::empty(), '\n');
        lemma_blank_parses(state);
    } else {
        let entry = entries[0];
        let rest = entries.drop_first();
        assert(writable_unknown_entries(rest)) by {
            assert forall|i: int| 0 <= i < rest.len() && !is_known(#[trigger] rest[i]) implies writable_entry(
                rest[i],
            ) by {
                assert(rest[i] == entries[i + 1]);
            }
        }
        assert(distinct_unknown_entries(rest)) by {
            assert forall|i: int, j: int|
                0 <= i < j < rest.len() && !is_known(#[trigger] rest[i]) && !is_known(
                    #[trigger] rest[j],
                ) implies !names(rest[j], rest[i].section, rest[i].key) by {
                assert(rest[i] == entries[i + 1]);
                assert(rest[j] == entries[j + 1]);
            }
        }
        assert forall|section: Seq<char>, key: Seq<char>|
            names_no_unknown(entries, section, key) implies names_no_unknown(rest, section, key) by {
            assert forall|i: int| 0 <= i < rest.len() && !is_known(#[trigger] rest[i]) implies !names(
                rest[i],
                section,
                key,
            ) by {
                assert(rest[i] == entries[i + 1]);
            }
        }
        let result = parsed_from(unknown_text(entries, current), state).0;
        if is_known(entry) {
            lemma_unknown_entries_values(rest, current, state);
            assert forall|i: int| 0 <= i < entries.len() && !is_known(#[trigger] entries[i]) implies found_value(
                result,
                entries[i].section,
                entries[i].key,
            ) == Some(entries[i].value) by {
                assert(entries[i] == rest[i - 1]);
            }
        } else {
            let read = if opens_section(current, entry.section) {
                entry
            } else {
                EntryView { section: state.1, key: entry.key, value: entry.value }
            };
            let next_state = (upserted(state.0, read), read.section);
            let next = if opens_section(current, entry.section) {
                Some(entry.section)
            } else {
                current
            };
            if opens_section(current, entry.section) {
                lemma_unknown_entry_opens(entry, unknown_text(rest, next), state);
            } else {
                lemma_unknown_entry_continues(entry, unknown_text(rest, current), state);
                lemma_ascii_case_equivalence(state.1, entry.section, entry.section);
            }
            assert(result == parsed_from(unknown_text(rest, next), next_state).0);
            lemma_unknown_entries_values(rest, next, next_state);
            // The entry read under the current section names what the entry names.
            assert forall|section: Seq<char>, key: Seq<char>|
                names(read, section, key) == names(entry, section, key) by {
                lemma_names_chain(read, entry, section, key);
                lemma_names_chain(entry, read, section, key);
                lemma_ascii_case_equivalence(read.section, entry.section, entry.section);
                lemma_ascii_case_equivalence(read.key, entry.key, entry.key);
            }
            assert forall|section: Seq<char>, key: Seq<char>|
                names_no_unknown(entries, section, key) implies #[trigger] found_value(
                result,
                section,
                key,
            ) == found_value(state.0, section, key) by {
                assert(!names(entry, section, key));
                lemma_upsert_keeps_others(state.0, read, section, key);
            }
            assert forall|i: int| 0 <= i < entries.len() && !is_known(#[trigger] entries[i]) implies found_value(
                result,
                entries[i].section,
                entries[i].key,
            ) == Some(entries[i].value) by {
                if i == 0 {
                    lemma_ascii_case_equivalence(entry.section, entry.section, entry.section);
                    lemma_ascii_case_equivalence(entry.key, entry.key, entry.key);
                    assert(names(entry, entry.section, entry.key));
                    law_later_value_wins(state.0, read, entry.section, entry.key);
                    assert forall|j: int| 0 <= j < rest.len() && !is_known(#[trigger] rest[j]) implies !names(
                        rest[j],
                        entry.section,
                        entry.key,
                    ) by {
                        assert(rest[j] == entries[j + 1]);
                    }
                    assert(names_no_unknown(rest, entry.section, entry.key));
                } else {
                    assert(entries[i] == rest[i - 1]);
                }
            }
        }
    }
}

/// Whether no two of `entries` stand under the same section and key, in any ASCII case.
pub open spec fn distinct_names(entries: Seq<EntryView>) -> bool {
    forall|i: int, j: int|
        0 <= i < j < entries.len() ==> !names(#[trigger] entries[j], #[trigger] entries[i].section, entries[i].key)
}

/// What reading a file keeps true of its state: the current section reads back as itself, each
/// entry of a named section can be written as a line of it, and names are not repeated.
spec fn reading_keeps(state: (Seq<EntryView>, Seq<char>)) -> bool {
    &&& clean_text(state.1)
    &&& forall|i: int|
        0 <= i < state.0.len() && (#[trigger] state.0[i]).section.len() > 0 ==> writable_entry(
            state.0[i],
        )
    &&& distinct_names(state.0)
}

proof fn lemma_part_contains(s: Seq<char>, start: int, end: int, c: char)
    requires
        0 <= start <= end <= s.len(),
        s.subrange(start, end).contains(c),
    ensures
        s.contains(c),
{
    let part = s.subrange(start, end);
    let i = choose|i: int| 0 <= i < part.len() && part[i] == c;
    assert(s[start + i] == c);
}

proof fn lemma_upserted_distinct(entries: Seq<EntryView>, entry: EntryView)
    requires
        distinct_names(entries),
    ensures
        distinct_names(upserted(entries, entry)),
{
    lemma_entry_index_from(entries, entry.section, entry.key, 0);
    let after = upserted(entries, entry);
    match entry_index(entries, entry.section, entry.key) {
        Some(index) => {
            assert forall|i: int, j: int| 0 <= i < j < after.len() implies !names(
                #[trigger] after[j],
                #[trigger] after[i].section,
                after[i].key,
            ) by {
                if i == index {
                    lemma_names_chain(entries[index], entry, entries[j].section, entries[j].key);
                    lemma_names_chain(entries[j], entry, entries[index].section, entries[index].key);
                    lemma_names_chain(entry, entries[j], entries[index].section, entries[index].key);
                } else if j == index {
                    lemma_names_chain(entries[index], entry, entries[i].section, entries[i].key);
                }
            }
        },
        None => {
            assert forall|i: int, j: int| 0 <= i < j < after.len() implies !names(
                #[trigger] after[j],
                #[trigger] after[i].section,
                after[i].key,
            ) by {
                if j == entries.len() {
                    lemma_names_chain(entry, entries[i], entry.section, entry.key);
                    lemma_ascii_case_equivalence(entry.section, entry.section, entry.section);
                    lemma_ascii_case_equivalence(entry.key, entry.key, entry.key);
                }
            }
        },
    }
}

proof fn lemma_parsed_line_keeps(state: (Seq<EntryView>, Seq<char>), line: Seq<char>)
    requires
        reading_keeps(state),
        !line.contains('\n'),
    ensures
        reading_keeps(parsed_line(state, line)),
{
    let text = trim(line);
    lemma_trim_facts(line);
    if text.len() == 0 || text[0] == ';' || text[0] == '#' {
    } else if text.len() >= 2 && text[0] == '[' && text.last() == ']' {
        let inner = text.subrange(1, text.len() - 1);
        lemma_trim_facts(inner);
        if trim(inner).contains('\n') {
            lemma_part_contains(text, 1, text.len() - 1, '\n');
        }
    } else {
        crate::seq_util::lemma_index_of_first_facts(text, '=');
        match text.index_of_first('=') {
            None => {},
            Some(equals) => {
                let head = text.take(equals);
                let tail = text.skip(equals + 1);
                let key = trim(head);
                if key.len() > 0 {
                    let value = trim(tail);
                    lemma_trim_facts(head);
                    lemma_trim_facts(tail);
                    assert(head[0] == text[0]);
                    if key.contains('=') {
                        lemma_part_contains(text, 0, equals, '=');
                        let k = choose|k: int| 0 <= k < head.len() && head[k] == '=';
                        assert(text[k] == '=');
                    }
                    if key.contains('\n') {
                        lemma_part_contains(text, 0, equals, '\n');
                    }
                    if value.contains('\n') {
                        lemma_part_contains(text, equals + 1, text.len() as int, '\n');
                    }
                    if tail.len() > 0 {
                        assert(tail.last() == text.last());
                    }
                    let entry = EntryView { section: state.1, key, value };
                    assert(entry.section.len() > 0 ==> writable_entry(entry));
                    lemma_upserted_distinct(state.0, entry);
                    let after = upserted(state.0, entry);
                    lemma_entry_index_from(state.0, entry.section, entry.key, 0);
                    assert forall|i: int|
                        0 <= i < after.len() && (#[trigger] after[i]).section.len() > 0 implies writable_entry(
                        after[i],
                    ) by {
                        if i < state.0.len() && after[i] != entry {
                            assert(after[i] == state.0[i]);
                        }
                    }
                }
            },
        }
    }
}

proof fn lemma_parsed_from_keeps(text: Seq<char>, state: (Seq<EntryView>, Seq<char>))
    requires
        reading_keeps(state),
    ensures
        reading_keeps(parsed_from(text, state)),
    decreases text.len(),
{
    crate::seq_util::lemma_index_of_first_facts(text, '\n');
    match text.index_of_first('\n') {
        None => {
            lemma_parsed_line_keeps(state, text);
        },
        Some(newline) => {
            let line = text.take(newline);
            if line.contains('\n') {
                let k = choose|k: int| 0 <= k < line.len() && line[k] == '\n';
                assert(text[k] == '\n');
            }
            lemma_parsed_line_keeps(state, line);
            lemma_parsed_from_keeps(text.skip(newline + 1), parsed_line(state, line));
        },
    }
}

/// What a document read from a file keeps can be written back: each of its entries that stands
/// in a named section can be written as a line of that section and read back as itself, and no
/// two of its entries stand under the same section and key in any ASCII case.
pub proof fn law_parsed_entries_can_be_written(contents: Seq<char>)
    ensures
        forall|i: int|
            0 <= i < parsed_entries(contents).len() && (#[trigger] parsed_entries(
                contents,
            )[i]).section.len() > 0 ==> writable_entry(parsed_entries(contents)[i]),
        distinct_names(parsed_entries(contents)),
{
    let start = (Seq::<EntryView>::empty(), Seq::<char>::empty());
    assert(!start.1.contains('\n'));
    lemma_parsed_from_keeps(contents, start);
}

/// What a document keeps besides the settings comes back too: in a file written from `settings`
/// and a document's `entries`, each entry that `Settings` has no field for reads back under its
/// section and key with its value, where it can be written as a line of a named section and no
/// other such entry stands under the same names, as in a parsed document. As in the law above,
/// the monitor mode must hold no line break and no white space at either end.
pub proof fn law_unknown_entries_read_back(entries: Seq<EntryView>, settings: SettingsView, index: int)
    requires
        clean_text(settings.monitor.monitor_mode),
        writable_unknown_entries(entries),
        distinct_unknown_entries(entries),
        0 <= index < entries.len(),
        !is_known(entries[index]),
    ensures
        found_value(
            parsed_entries(rendered(entries, settings)),
            entries[index].section,
            entries[index].key,
        ) == Some(entries[index].value),
{
    let start = (Seq::<EntryView>::empty(), Seq::<char>::empty());
    let written = written_entries(settings);
    lemma_known_entries(settings);
    lemma_parse_lines_then(known_lines(settings), unknown_text(entries, None), start);
    lemma_unknown_entries_values(entries, None, (written, "Monitor"@));
}

/// What the file is written with reads back as the same settings: a file written from
/// `settings`, keeping the entries of a document that `Settings` has no field for, gives
/// `settings` again. The law asks that each kept entry stand in a named section and read back
/// as itself; an entry from before the first section would be read into the section above it.
/// A monitor mode with white space at either end or a line break in it is written as is and
/// reads back otherwise, and an empty one reads back as the default.
pub proof fn law_written_settings_read_back(entries: Seq<EntryView>, settings: SettingsView)
    requires
        clean_text(settings.monitor.monitor_mode),
        settings.monitor.monitor_mode.len() > 0,
        writable_unknown_entries(entries),
    ensures
        settings_of(parsed_entries(rendered(entries, settings))) == settings,
{
    let start = (Seq::<EntryView>::empty(), Seq::<char>::empty());
    let written = written_entries(settings);
    lemma_known_entries(settings);
    lemma_parse_lines_then(known_lines(settings), unknown_text(entries, None), start);
    lemma_written_entries_known(settings);
    lemma_unknown_entries_parse(entries, None, (written, "Monitor"@), written);
    let read = parsed_entries(rendered(entries, settings));
    let tail = read.skip(written.len() as int);
    assert(read =~= written + tail);
    lemma_written_entries_read_back(settings, tail);
}


/// A settings file that is read and written again keeps what it held: from a document read
/// from `contents`, where each entry that `Settings` has no field for stands in a named
/// section, a file written with `settings` reads back as `settings`, and each such entry reads
/// back under its section and key with its value. The monitor mode must be non-empty and hold
/// no line break and no white space at either end.
pub proof fn law_read_file_written_back(contents: Seq<char>, settings: SettingsView)
    requires
        clean_text(settings.monitor.monitor_mode),
        settings.monitor.monitor_mode.len() > 0,
        forall|i: int|
            0 <= i < parsed_entries(contents).len() && !is_known(
                #[trigger] parsed_entries(contents)[i],
            ) ==> parsed_entries(contents)[i].section.len() > 0,
    ensures
        settings_of(parsed_entries(rendered(parsed_entries(contents), settings))) == settings,
        forall|i: int|
            0 <= i < parsed_entries(contents).len() && !is_known(
                #[trigger] parsed_entries(contents)[i],
            ) ==> found_value(
                parsed_entries(rendered(parsed_entries(contents), settings)),
                parsed_entries(contents)[i].section,
                parsed_entries(contents)[i].key,
            ) == Some(parsed_entries(contents)[i].value),
{
    let entries = parsed_entries(contents);
    law_parsed_entries_can_be_written(contents);
    assert(writable_unknown_entries(entries));
    assert(distinct_unknown_entries(entries));
    law_written_settings_read_back(entries, settings);
    assert forall|i: int| 0 <= i < entries.len() && !is_known(#[trigger] entries[i]) implies found_value(
        parsed_entries(rendered(entries, settings)),
        entries[i].section,
        entries[i].key,
    ) == Some(entries[i].value) by {
        law_unknown_entries_read_back(entries, settings, i);
    }
}


/// The lines of `text`, split at each newline; the last one is what follows the last newline.
pub open spec fn text_lines(text: Seq<char>) -> Seq<Seq<char>>
    decreases text.len(),
{
    match text.index_of_first('\n') {
        None => seq![text],
        Some(newline) => {
            proof {
                crate::seq_util::lemma_index_of_first_facts(text, '\n');
            }
            seq![text.take(newline)] + text_lines(text.skip(newline + 1))
        },
    }
}

/// The entry that `line` gives where it is a `key=value` line read under `section`: its key and
/// value trimmed; `None` for a blank line, a comment, a section header, or a line without `=` or
/// without a key.
pub open spec fn line_entry(section: Seq<char>, line: Seq<char>) -> Option<EntryView> {
    let text = trim(line);
    if text.len() == 0 || text[0] == ';' || text[0] == '#' || (text.len() >= 2 && text[0] == '['
        && text.last() == ']') {
        None
    } else {
        match text.index_of_first('=') {
            None => None,
            Some(equals) => {
                let key = trim(text.take(equals));
                if key.len() == 0 {
                    None
                } else {
                    Some(EntryView { section, key, value: trim(text.skip(equals + 1)) })
                }
            },
        }
    }
}

/// The section that line `index` of `contents` is read under: the name of the last header
/// above it, empty before any.
pub open spec fn section_before(contents: Seq<char>, index: int) -> Seq<char> {
    parsed_lines(text_lines(contents).take(index), (Seq::empty(), Seq::empty())).1
}

/// Whether line `index` of `contents` is a `key=value` line under `section` and `key`, in any
/// ASCII case.
pub open spec fn line_names(contents: Seq<char>, index: int, section: Seq<char>, key: Seq<char>) -> bool {
    match line_entry(section_before(contents, index), text_lines(contents)[index]) {
        Some(entry) => names(entry, section, key),
        None => false,
    }
}

proof fn lemma_parsed_line_entry(state: (Seq<EntryView>, Seq<char>), line: Seq<char>)
    ensures
        parsed_line(state, line).1 == state.1 || line_entry(state.1, line) is None,
        parsed_line(state, line).0 == match line_entry(state.1, line) {
            Some(entry) => upserted(state.0, entry),
            None => state.0,
        },
{
}

proof fn lemma_parsed_one_line(line: Seq<char>, state: (Seq<EntryView>, Seq<char>))
    ensures
        parsed_lines(seq![line], state) == parsed_line(state, line),
{
    let one = seq![line];
    assert(one.drop_first() =~= Seq::<Seq<char>>::empty());
    assert(parsed_lines(one.drop_first(), parsed_line(state, line)) == parsed_line(state, line));
}

proof fn lemma_parsed_from_lines(text: Seq<char>, state: (Seq<EntryView>, Seq<char>))
    ensures
        parsed_from(text, state) == parsed_lines(text_lines(text), state),
    decreases text.len(),
{
    crate::seq_util::lemma_index_of_first_facts(text, '\n');
    match text.index_of_first('\n') {
        None => {
            lemma_parsed_one_line(text, state);
        },
        Some(newline) => {
            let rest = text.skip(newline + 1);
            let lines = seq![text.take(newline)] + text_lines(rest);
            lemma_parsed_from_lines(rest, parsed_line(state, text.take(newline)));
            assert(lines.drop_first() =~= text_lines(rest));
            assert(lines[0] == text.take(newline));
        },
    }
}

proof fn lemma_later_lines_keep(
    lines: Seq<Seq<char>>,
    upto: int,
    section: Seq<char>,
    key: Seq<char>,
    value: Seq<char>,
)
    requires
        0 <= upto <= lines.len(),
        found_value(parsed_lines(lines.take(upto), (Seq::empty(), Seq::empty())).0, section, key)
            == Some(value),
        forall|j: int|
            upto <= j < lines.len() ==> match line_entry(
                parsed_lines(lines.take(j), (Seq::empty(), Seq::empty())).1,
                #[trigger] lines[j],
            ) {
                Some(entry) => !names(entry, section, key),
                None => true,
            },
    ensures
        found_value(parsed_lines(lines, (Seq::empty(), Seq::empty())).0, section, key) == Some(value),
    decreases lines.len() - upto,
{
    let start = (Seq::<EntryView>::empty(), Seq::<char>::empty());
    if upto == lines.len() {
        assert(lines.take(upto) =~= lines);
    } else {
        let before = parsed_lines(lines.take(upto), start);
        lemma_parse_lines_append(lines.take(upto), seq![lines[upto]], start);
        assert(lines.take(upto) + seq![lines[upto]] =~= lines.take(upto + 1));
        lemma_parsed_one_line(lines[upto], before);
        lemma_parsed_line_entry(before, lines[upto]);
        match line_entry(before.1, lines[upto]) {
            Some(entry) => {
                lemma_upsert_keeps_others(before.0, entry, section, key);
            },
            None => {},
        }
        lemma_later_lines_keep(lines, upto + 1, section, key, value);
    }
}

/// Reading a file keeps, under each section and key in any ASCII case, the value of the last
/// line that names them: where line `index` of `contents` is a `key=value` line, read under the
/// section of the last header above it, that stands under `section` and `key`, and no later line
/// does, the document holds that line's trimmed value there.
pub proof fn law_last_line_wins(contents: Seq<char>, index: int, section: Seq<char>, key: Seq<char>)
    requires
        0 <= index < text_lines(contents).len(),
        line_names(contents, index, section, key),
        forall|j: int|
            index < j < text_lines(contents).len() ==> !#[trigger] line_names(
                contents,
                j,
                section,
                key,
            ),
    ensures
        found_value(parsed_entries(contents), section, key) == Some(
            line_entry(section_before(contents, index), text_lines(contents)[index])->0.value,
        ),
{
    let start = (Seq::<EntryView>::empty(), Seq::<char>::empty());
    let lines = text_lines(contents);
    let entry = line_entry(section_before(contents, index), lines[index])->0;
    lemma_parsed_from_lines(contents, start);
    let before = parsed_lines(lines.take(index), start);
    lemma_parse_lines_append(lines.take(index), seq![lines[index]], start);
    assert(lines.take(index) + seq![lines[index]] =~= lines.take(index + 1));
    lemma_parsed_one_line(lines[index], before);
    lemma_parsed_line_entry(before, lines[index]);
    law_later_value_wins(before.0, entry, section, key);
    assert forall|j: int| index + 1 <= j < lines.len() implies match line_entry(
        parsed_lines(lines.take(j), start).1,
        #[trigger] lines[j],
    ) {
        Some(other) => !names(other, section, key),
        None => true,
    } by {
        assert(!line_names(contents, j, section, key));
    }
    lemma_later_lines_keep(lines, index + 1, section, key, entry.value);
}

} // verus!

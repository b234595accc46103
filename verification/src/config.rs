//! Configuration values consumed by the caller: hotkey, startup, search and
//! update settings, with their documented defaults.

use vstd::prelude::*;

verus! {

/// The global activation hotkey.
pub struct HotkeyConfig {
    pub modifiers: Vec<String>,
    pub key: String,
}

impl Default for HotkeyConfig {
    /// Alt+Space.
    fn default() -> (r: Self)
        ensures
            r.modifiers@.len() == 1,
            r.modifiers@[0]@ == "Alt"@,
            r.key@ == "Space"@,
    {
        let mut modifiers: Vec<String> = Vec::new();
        modifiers.push("Alt".to_owned());
        HotkeyConfig { modifiers, key: "Space".to_owned() }
    }
}

/// Whether the launcher registers itself to run at login.
pub struct StartupConfig {
    pub enabled: bool,
    pub show_on_startup: bool,
}

impl Default for StartupConfig {
    /// Enabled, but without showing the window at login.
    fn default() -> (r: Self)
        ensures
            r.enabled,
            !r.show_on_startup,
    {
        StartupConfig { enabled: true, show_on_startup: false }
    }
}

/// Search behaviour knobs consumed by the caller for debouncing and
/// filtering; the engine itself reads none of them.
pub struct SearchConfig {
    pub excluded_folders: Vec<String>,
    pub file_type_filters: Vec<String>,
    pub search_delay_ms: u32,
    pub fuzzy_search: bool,
}

impl Default for SearchConfig {
    /// No filters, a 150 ms debounce, fuzzy matching on.
    fn default() -> (r: Self)
        ensures
            r.excluded_folders@.len() == 0,
            r.file_type_filters@.len() == 0,
            r.search_delay_ms == 150,
            r.fuzzy_search,
    {
        SearchConfig {
            excluded_folders: Vec::new(),
            file_type_filters: Vec::new(),
            search_delay_ms: 150,
            fuzzy_search: true,
        }
    }
}

/// Update-checking preferences.
pub struct UpdateConfig {
    pub auto_check: bool,
    pub check_frequency_hours: u32,
    pub beta_channel: bool,
    pub last_check: Option<String>,
}

impl Default for UpdateConfig {
    /// Check automatically once a day, stable channel only.
    fn default() -> (r: Self)
        ensures
            r.auto_check,
            r.check_frequency_hours == 24,
            !r.beta_channel,
            r.last_check is None,
    {
        UpdateConfig {
            auto_check: true,
            check_frequency_hours: 24,
            beta_channel: false,
            last_check: None,
        }
    }
}

/// A fresh profile starts on its first run.
pub fn default_first_run() -> (r: bool)
    ensures
        r,
{
    true
}

/// Eight application rows at most.
pub fn default_max_results() -> (r: usize)
    ensures
        r == 8,
{
    8
}

/// Fourteen-pixel result text.
pub fn default_font_size() -> (r: u32)
    ensures
        r == 14,
{
    14
}

/// The normal window preset.
pub fn default_window_size() -> (r: String)
    ensures
        r@ == "normal"@,
{
    "normal".to_owned()
}

/// A 150 ms debounce between keystroke and search.
pub fn default_search_delay() -> (r: u32)
    ensures
        r == 150,
{
    150
}

/// Fuzzy matching is on by default.
pub fn default_fuzzy_search() -> (r: bool)
    ensures
        r,
{
    true
}

/// Updates are checked automatically by default.
pub fn default_auto_check() -> (r: bool)
    ensures
        r,
{
    true
}

/// Updates are checked once a day.
pub fn default_check_frequency() -> (r: u32)
    ensures
        r == 24,
{
    24
}

} // verus!

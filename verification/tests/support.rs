//! Configuration defaults, hotkey presets, discovery helpers, fuzzy search
//! and the single-instance decisions.

use nexus::config::{default_first_run, HotkeyConfig};
use nexus::discovery::{
    dedupe_entries, discover_uwp_apps, get_system_apps, is_launchable_ext, parse_shortcut,
    should_scan_dir,
};
use nexus::fuzzy::{fuzzy_search, SearchConfig};
use nexus::instance::{detect_portable_mode, should_restart_after_crash, PortableMode};
use nexus::model::{AppEntry, AppType, UsageStats};
use nexus::startup::StartupError;
use nexus::tray::TrayEvent;
use nexus::wizard::{get_hotkey_from_index, validate_hotkey};

#[test]
fn test_default_config() {
    let hotkey = HotkeyConfig::default();
    assert_eq!(hotkey.key, "Space");
    assert!(hotkey.modifiers.contains(&"Alt".to_string()));
    assert!(default_first_run());
}

#[test]
fn test_tray_event_enum() {
    let show_event = TrayEvent::Show;
    match show_event {
        TrayEvent::Show => assert!(true),
        _ => assert!(false),
    }
}

#[test]
fn test_get_hotkey_from_index() {
    assert_eq!(get_hotkey_from_index(0), ("Alt", "Space"));
    assert_eq!(get_hotkey_from_index(1), ("Ctrl", "Space"));
    assert_eq!(get_hotkey_from_index(2), ("Win", "Space"));
    assert_eq!(get_hotkey_from_index(3), ("Ctrl+Shift", "Space"));
    assert_eq!(get_hotkey_from_index(999), ("Alt", "Space")); // Fallback
}

#[test]
fn test_validate_hotkey() {
    // Valid hotkeys
    assert!(validate_hotkey(&vec!["Alt".to_string()], "Space").is_ok());
    assert!(validate_hotkey(&vec!["Ctrl".to_string()], "Space").is_ok());

    // System reserved hotkeys should fail
    assert!(validate_hotkey(&vec!["Win".to_string()], "L").is_err());
    assert!(validate_hotkey(&vec!["Alt".to_string()], "F4").is_err());
}

#[test]
fn test_validate_hotkey_message() {
    let err = validate_hotkey(&vec!["Win".to_string()], "L").unwrap_err();
    assert_eq!(err, "Hotkey Win+L is reserved by Windows");
    let multi = validate_hotkey(
        &vec!["Ctrl".to_string(), "Alt".to_string()],
        "Delete",
    )
    .unwrap_err();
    assert_eq!(multi, "Hotkey Ctrl+Alt+Delete is reserved by Windows");
}

#[test]
fn test_startup_error_messages() {
    assert_eq!(
        StartupError::ExePathNotFound.message(),
        "Could not determine executable path"
    );
    assert_eq!(StartupError::RegistryAccessDenied.message(), "Registry access denied");
    assert_eq!(StartupError::RegistryWriteFailed.message(), "Failed to write to registry");
}

#[test]
fn test_crash_detection() {
    assert!(should_restart_after_crash(None, 1000));
    assert!(should_restart_after_crash(Some("garbage"), 1000));
    assert!(should_restart_after_crash(Some("100"), 1000));
    assert!(!should_restart_after_crash(Some("900"), 1000));
    assert!(!should_restart_after_crash(Some(" 900 \n"), 1000));
    // A stamp from the future is not a crash.
    assert!(!should_restart_after_crash(Some("5000"), 1000));
}

#[test]
fn test_portable_mode_detection() {
    assert_eq!(detect_portable_mode(true, false, None), PortableMode::Portable);
    assert_eq!(detect_portable_mode(false, true, None), PortableMode::Portable);
    assert_eq!(
        detect_portable_mode(false, false, Some("C:\\Program Files\\Nexus")),
        PortableMode::Installed
    );
    assert_eq!(
        detect_portable_mode(false, false, Some("D:\\Tools\\Nexus")),
        PortableMode::Portable
    );
    assert_eq!(detect_portable_mode(false, false, None), PortableMode::Installed);
}

#[test]
fn test_parse_shortcut() {
    let app = parse_shortcut("My App - Shortcut", Some("Games"), "C:\\x\\My App.lnk").unwrap();
    assert_eq!(app.name, "My App");
    assert_eq!(app.description, "Games");
    assert_eq!(app.path, "C:\\x\\My App.lnk");
    assert_eq!(app.app_type, AppType::DesktopApp);

    let plain = parse_shortcut("Tool", None, "tool.exe").unwrap();
    assert_eq!(plain.description, "Application");

    assert!(parse_shortcut("Uninstall My App", Some("X"), "u.lnk").is_none());
    assert!(parse_shortcut("README", Some("X"), "r.lnk").is_none());
    assert!(parse_shortcut(".hidden", Some("X"), "h.lnk").is_none());
    assert!(parse_shortcut(" - Shortcut", Some("X"), "s.lnk").is_none());
}

#[test]
fn test_scan_filters() {
    assert!(should_scan_dir("Accessories"));
    assert!(!should_scan_dir(".git"));
    assert!(!should_scan_dir("Startup"));
    assert!(is_launchable_ext("LNK"));
    assert!(is_launchable_ext("exe"));
    assert!(!is_launchable_ext("txt"));
}

#[test]
fn test_system_apps_and_dedupe() {
    let apps = get_system_apps();
    assert_eq!(apps.len(), 14);
    assert_eq!(apps[0].name, "Settings");
    assert_eq!(apps[7].name, "Notepad");
    assert_eq!(discover_uwp_apps().len(), 0);

    let mut all = apps;
    all.push(AppEntry {
        name: "NOTEPAD".to_string(),
        path: "elsewhere.exe".to_string(),
        description: "duplicate".to_string(),
        app_type: AppType::File,
    });
    let deduped = dedupe_entries(all);
    assert_eq!(deduped.len(), 14);
    assert!(deduped.iter().all(|a| a.description != "duplicate"));
}

#[test]
fn test_fuzzy_search() {
    let apps = vec![
        AppEntry {
            name: "Visual Studio Code".to_string(),
            path: "code.exe".to_string(),
            description: "Editor".to_string(),
            app_type: AppType::DesktopApp,
        },
        AppEntry {
            name: "Notepad".to_string(),
            path: "notepad.exe".to_string(),
            description: "Text".to_string(),
            app_type: AppType::DesktopApp,
        },
    ];
    let usage = UsageStats::new();
    let config = SearchConfig::default();
    let hits = fuzzy_search(&apps, "vsc", &usage, &config);
    assert_eq!(hits.len(), 1);
    assert_eq!(hits[0].0.name, "Visual Studio Code");
    assert!(hits[0].1 > 0);

    let none = fuzzy_search(&apps, "qqq", &usage, &config);
    assert!(none.is_empty());
}

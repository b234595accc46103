//! The tiered matcher and the result pipeline.

use nexus::matcher::{is_subsequence, match_catalog, starts_with_match};
use nexus::model::{AppEntry, AppType, ResultKind, UsageStats};
use nexus::pipeline::search;

fn entry(name: &str, app_type: AppType) -> AppEntry {
    AppEntry {
        name: name.to_string(),
        path: format!("{}.exe", name),
        description: format!("{} entry", name),
        app_type,
    }
}

#[test]
fn test_starts_with_match() {
    assert!(starts_with_match("Visual Studio Code", "vis"));
    assert!(starts_with_match("Visual Studio Code", "code"));
    assert!(starts_with_match("Notepad", "note"));
    assert!(!starts_with_match("Notepad", "xyz"));
}

#[test]
fn test_is_subsequence() {
    assert!(is_subsequence("vsc", "visual studio code"));
    assert!(!is_subsequence("xyz", "notepad"));
    assert!(is_subsequence("", "anything"));
    assert!(!is_subsequence("a", ""));
}

#[test]
fn test_tier_order() {
    let catalog = vec![
        entry("Crowded", AppType::DesktopApp),     // subsequence for "cod" (tier 4)
        entry("My Code Helper", AppType::DesktopApp), // word prefix (tier 2)
        entry("Code", AppType::DesktopApp),        // exact prefix (tier 1)
    ];
    let usage = UsageStats::new();
    let results = match_catalog("cod", &catalog, &usage, 8);
    let names: Vec<&str> = results.iter().map(|r| r.name.as_str()).collect();
    assert_eq!(names, vec!["Code", "My Code Helper", "Crowded"]);
}

#[test]
fn test_tier_dominance_beats_usage() {
    // A heavily used subsequence match must never displace a prefix match.
    let catalog = vec![
        entry("xaxbx", AppType::DesktopApp),
        entry("Amazing Bob", AppType::DesktopApp),
    ];
    let mut usage = UsageStats::new();
    for _ in 0..500 {
        usage.record_usage("xaxbx");
    }
    let results = match_catalog("ab", &catalog, &usage, 8);
    assert_eq!(results[0].name, "Amazing Bob");
    assert_eq!(results[1].name, "xaxbx");
}

#[test]
fn test_usage_orders_equal_prefixes() {
    let catalog = vec![
        entry("Alpha One", AppType::DesktopApp),
        entry("Alpha Two", AppType::DesktopApp),
    ];
    let mut usage = UsageStats::new();
    usage.record_usage("Alpha Two");
    usage.record_usage("Alpha Two");
    let results = match_catalog("alpha", &catalog, &usage, 8);
    assert_eq!(results[0].name, "Alpha Two");
    assert_eq!(results[1].name, "Alpha One");
}

#[test]
fn test_shorter_prefix_wins() {
    let catalog = vec![
        entry("Notepad Plus Plus", AppType::DesktopApp),
        entry("Notepad", AppType::DesktopApp),
    ];
    let usage = UsageStats::new();
    let results = match_catalog("note", &catalog, &usage, 8);
    assert_eq!(results[0].name, "Notepad");
}

#[test]
fn test_initials_match() {
    let catalog = vec![entry("Visual Studio Code", AppType::DesktopApp)];
    let usage = UsageStats::new();
    let results = match_catalog("vsc", &catalog, &usage, 8);
    assert_eq!(results.len(), 1);
    assert_eq!(results[0].name, "Visual Studio Code");
    // A single letter never reaches the initials tier, but still matches as
    // a name prefix here.
    assert_eq!(match_catalog("v", &catalog, &usage, 8).len(), 1);
}

#[test]
fn test_max_results_cap() {
    let catalog: Vec<AppEntry> = (0..5).map(|i| entry(&format!("app{}", i), AppType::File)).collect();
    let usage = UsageStats::new();
    let results = search("app", &catalog, &usage, 2);
    let catalog_rows = results
        .iter()
        .filter(|r| r.result_type == ResultKind::App || r.result_type == ResultKind::File)
        .count();
    assert!(catalog_rows <= 2);
    assert_eq!(results.len(), 2);
}

#[test]
fn test_search_idempotent() {
    let catalog = vec![
        entry("Calculator", AppType::DesktopApp),
        entry("Code", AppType::DesktopApp),
    ];
    let mut usage = UsageStats::new();
    usage.record_usage("Code");
    let first = search("c", &catalog, &usage, 8);
    let second = search("c", &catalog, &usage, 8);
    assert_eq!(first, second);
}

#[test]
fn test_action_short_circuits() {
    // Even an entry literally named "Shutdown" yields exactly one Action row.
    let catalog = vec![entry("Shutdown", AppType::DesktopApp)];
    let usage = UsageStats::new();
    let results = search("shutdown", &catalog, &usage, 8);
    assert_eq!(results.len(), 1);
    assert_eq!(results[0].result_type, ResultKind::Action);
}

#[test]
fn test_affordance_rows_not_capped() {
    let catalog = vec![entry("2+2 Solver", AppType::DesktopApp)];
    let usage = UsageStats::new();
    // The calculator row rides on top of the capped catalog rows.
    let results = search("2+2", &catalog, &usage, 0);
    assert_eq!(results.len(), 1);
    assert_eq!(results[0].result_type, ResultKind::Calc);

    let with_room = search("2+2", &catalog, &usage, 8);
    assert_eq!(with_room[0].result_type, ResultKind::Calc);
    assert!(with_room.iter().any(|r| r.result_type == ResultKind::App));
}

#[test]
fn test_empty_catalog() {
    let catalog: Vec<AppEntry> = Vec::new();
    let usage = UsageStats::new();
    assert_eq!(search("nothing here", &catalog, &usage, 8).len(), 0);
    let web_only = search("g cats", &catalog, &usage, 8);
    assert_eq!(web_only.len(), 1);
    assert_eq!(web_only[0].result_type, ResultKind::Web);
}

#[test]
fn test_equal_scores_keep_catalog_order() {
    // Both entries match as word prefixes with equal scores; the stable
    // sort keeps them in catalog order.
    let catalog = vec![
        entry("Zeta Code", AppType::DesktopApp),
        entry("Alpha Code", AppType::DesktopApp),
    ];
    let usage = UsageStats::new();
    let results = match_catalog("code", &catalog, &usage, 8);
    assert_eq!(results[0].name, "Zeta Code");
    assert_eq!(results[1].name, "Alpha Code");
}

#[test]
fn test_empty_query_matches_everything() {
    // The empty query is a prefix of every name; the cap still holds.
    let catalog: Vec<AppEntry> = (0..4).map(|i| entry(&format!("tool{}", i), AppType::File)).collect();
    let usage = UsageStats::new();
    let results = match_catalog("", &catalog, &usage, 3);
    assert_eq!(results.len(), 3);
}

#[test]
fn test_mru_tracking() {
    let mut usage = UsageStats::new();
    usage.record_usage("Notepad");
    usage.record_usage("Notepad");
    assert_eq!(usage.get_mru_score("Notepad"), 2);
    assert_eq!(usage.get_mru_score("Unknown"), 0);
}

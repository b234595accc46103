//! Version comparison and release inspection.

use nexus::updater::{
    find_msi_asset, is_newer_version, process_release_for_update, process_releases_for_update,
    GitHubAsset, GitHubRelease, UpdateError,
};

fn asset(name: &str) -> GitHubAsset {
    GitHubAsset {
        name: name.to_string(),
        browser_download_url: format!("https://example.com/{}", name),
        size: 1234,
    }
}

fn release(tag: &str, assets: Vec<GitHubAsset>) -> GitHubRelease {
    GitHubRelease {
        tag_name: tag.to_string(),
        name: format!("Release {}", tag),
        body: "notes".to_string(),
        published_at: "2024-01-01T00:00:00Z".to_string(),
        assets,
    }
}

#[test]
fn test_version_comparison() {
    assert!(is_newer_version("0.1.0", "0.2.0"));
    assert!(!is_newer_version("0.2.0", "0.1.0"));
    assert!(!is_newer_version("0.1.0", "0.1.0"));
}

#[test]
fn test_version_comparison_semver() {
    // Semantic comparison, not string comparison: 1.10 is newer than 1.9.
    assert!(is_newer_version("1.9.0", "v1.10.0"));
    assert!(!is_newer_version("1.10.0", "v1.9.0"));
    // Unparsable versions fall back to string order.
    assert!(is_newer_version("abc", "abd"));
    assert!(!is_newer_version("abd", "abc"));
}

#[test]
fn test_find_msi_asset() {
    let rel = release("v2.0.0", vec![asset("setup.zip"), asset("Setup.msi"), asset("other.MSI")]);
    let info = find_msi_asset(&rel).unwrap();
    assert_eq!(info.download_url, "https://example.com/Setup.msi");
    assert_eq!(info.version, "v2.0.0");
    assert_eq!(info.file_size, 1234);

    let none = release("v2.0.0", vec![asset("setup.zip")]);
    assert_eq!(find_msi_asset(&none).unwrap_err(), UpdateError::NoInstallerAsset);
}

#[test]
fn test_process_release() {
    let newer = release("v2.0.0", vec![asset("Setup.msi")]);
    let info = process_release_for_update(&newer, "1.0.0").unwrap().unwrap();
    assert_eq!(info.version, "v2.0.0");

    let older = release("v0.5.0", vec![asset("Setup.msi")]);
    assert!(process_release_for_update(&older, "1.0.0").unwrap().is_none());

    let bad_current = process_release_for_update(&newer, "not-a-version");
    assert_eq!(bad_current.unwrap_err(), UpdateError::InvalidCurrentVersion);

    let no_msi = release("v2.0.0", vec![asset("setup.zip")]);
    assert_eq!(
        process_release_for_update(&no_msi, "1.0.0").unwrap_err(),
        UpdateError::NoInstallerAsset
    );
}

#[test]
fn test_process_releases_skips_prereleases() {
    let releases = vec![
        release("v3.0.0-rc1", vec![asset("Setup.msi")]),
        release("v2.9.0-beta", vec![asset("Setup.msi")]),
        release("v2.5.0", vec![asset("Setup.msi")]),
    ];
    let info = process_releases_for_update(&releases, "1.0.0").unwrap().unwrap();
    assert_eq!(info.version, "v2.5.0");

    let only_old = vec![release("v0.1.0", vec![asset("Setup.msi")])];
    assert!(process_releases_for_update(&only_old, "1.0.0").unwrap().is_none());
}

use depctl::cli::{platform_for_os, version_banner, CommandOptions};

fn options(platform: Option<&str>, skip: Option<&str>) -> CommandOptions {
    CommandOptions {
        platform: platform.map(|p| p.to_string()),
        version: false,
        project: None,
        clean: false,
        non_recursive: false,
        mirror: None,
        force_linkfiles: false,
        force_copyfiles: false,
        skip_paths: skip.map(|p| p.to_string()),
    }
}

#[test]
fn platform_given_or_detected() {
    assert_eq!(options(Some("ios"), None).platform("linux"), "ios");
    assert_eq!(options(None, None).platform("macos"), "mac");
    assert_eq!(options(None, None).platform("windows"), "win");
    assert_eq!(options(None, None).platform("linux"), "linux");
    assert_eq!(platform_for_os("freebsd"), "unknown");
}

#[test]
fn skip_paths_are_trimmed_and_non_empty() {
    assert_eq!(
        options(None, Some(" third_party/chromium , ,vendor/xxx,")).skip_paths(),
        vec!["third_party/chromium".to_string(), "vendor/xxx".to_string()]
    );
    assert!(options(None, None).skip_paths().is_empty());
    assert!(options(None, Some("")).skip_paths().is_empty());
}

#[test]
fn version_banner_forms() {
    assert_eq!(
        version_banner("1.0.0", "0123456789abcdef", "https://g/x.git", "2024-01-01 00:00:00 UTC"),
        "depctl version 1.0.0 (commit 0123456, https://g/x.git, built 2024-01-01 00:00:00 UTC)"
    );
    assert_eq!(
        version_banner("1.0.0", "abc", "unknown", "T"),
        "depctl version 1.0.0 (commit abc, built T)"
    );
    assert_eq!(version_banner("1.0.0", "unknown", "u", "T"), "depctl version 1.0.0 (built T)");
    assert_eq!(version_banner("1.0.0", "unknown", "u", "unknown"), "depctl version 1.0.0");
    // the short commit is the first seven bytes
    assert_eq!(
        version_banner("1.0.0", "aaaaa\u{e9}xyz", "unknown", "T"),
        "depctl version 1.0.0 (commit aaaaa\u{e9}, built T)"
    );
}

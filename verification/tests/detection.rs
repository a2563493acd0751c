//! The probes and the dedup invariant: version extraction, registry entry
//! reading, path tables, and merging by path.

use quick_tabs::dedup::dedup_by_path;
use quick_tabs::probe::clean_command_path;
use quick_tabs::probe::common_paths;
use quick_tabs::probe::detect_all_browsers;
use quick_tabs::probe::detect_browser;
use quick_tabs::probe::executable_name;
use quick_tabs::probe::known_browsers;
use quick_tabs::probe::registry_browser;
use quick_tabs::probe::registry_browsers;
use quick_tabs::probe::version_from_output;
use quick_tabs::probe::with_version;
use quick_tabs::probe::Platform;
use quick_tabs::probe::ProbeEnv;
use quick_tabs::probe::RegistryEntry;
use quick_tabs::Browser;

fn browser(name: &str, path: &str, version: Option<&str>) -> Browser {
    Browser {
        name: name.to_string(),
        path: path.to_string(),
        version: version.map(|v| v.to_string()),
    }
}

fn empty_env() -> ProbeEnv {
    ProbeEnv {
        program_files: String::new(),
        program_files_x86: String::new(),
        local_app_data: String::new(),
    }
}

fn assert_unique_paths(list: &[Browser]) {
    for a in 0..list.len() {
        for b in (a + 1)..list.len() {
            assert_ne!(list[a].path, list[b].path, "two entries share a path");
        }
    }
}

#[test]
fn dedup_keeps_first_occurrence() {
    let merged = dedup_by_path(vec![
        browser("Path probe", "/usr/bin/firefox", Some("1")),
        browser("Other", "/usr/bin/chromium", None),
        browser("Registry probe", "/usr/bin/firefox", Some("2")),
    ]);
    assert_eq!(merged.len(), 2);
    assert_eq!(merged[0].name, "Path probe");
    assert_eq!(merged[0].version, Some("1".to_string()));
    assert_eq!(merged[1].name, "Other");
    assert_unique_paths(&merged);
}

#[test]
fn dedup_ignores_name_and_version() {
    // The same path surfaced by two probes under different names merges to
    // one entry.
    let merged = dedup_by_path(vec![
        browser("Google Chrome", "/opt/chrome", None),
        browser("chrome.exe", "/opt/chrome", Some("9")),
    ]);
    assert_eq!(merged.len(), 1);
    assert_eq!(merged[0].name, "Google Chrome");
}

#[test]
fn same_canonical_path_from_two_probes_is_one_entry() {
    // One logical browser found on the search path and in an install
    // directory resolves to one canonical path, so detection emits one
    // entry.
    let env = empty_env();
    let found = detect_browser("Shell", "sh", Platform::Unix, &env);
    assert_unique_paths(&found);
    let shell_hits: Vec<&Browser> = found.iter().collect();
    // `sh` is on the search path and in /usr/bin (or /bin) on this machine;
    // both resolve to the same file.
    assert!(!shell_hits.is_empty());
}

#[test]
fn full_detection_has_no_duplicate_paths() {
    let env = empty_env();
    let found = detect_all_browsers(Platform::Unix, &env, &Vec::new());
    assert_unique_paths(&found);
}

#[test]
fn different_spellings_of_one_file_merge() {
    // Two probes can surface the same executable under different path
    // spellings; canonicalization makes them one identity, so the merged
    // list holds a single entry.
    let a = Browser::new("From search path", "/bin/sh");
    let b = Browser::new("From install dir", "/usr/bin/sh");
    assert_eq!(a.path, b.path);
    let merged = dedup_by_path(vec![a, b]);
    assert_eq!(merged.len(), 1);
    assert_eq!(merged[0].name, "From search path");
}

#[test]
fn version_of_failed_probe_is_unknown() {
    // A probe that failed to run yields no version, never an error.
    assert_eq!(version_from_output(&None), None);
    assert_eq!(version_from_output(&Some(String::new())), None);
    assert_eq!(version_from_output(&Some("   \n".to_string())), None);
}

#[test]
fn version_takes_first_line_trimmed() {
    assert_eq!(
        version_from_output(&Some("Mozilla Firefox 124.0\n".to_string())),
        Some("Mozilla Firefox 124.0".to_string())
    );
    assert_eq!(
        version_from_output(&Some("  v1.2  \r\nsecond line\n".to_string())),
        Some("v1.2".to_string())
    );
}

#[test]
fn attaching_a_version_keeps_name_and_path() {
    let b = browser("F", "/usr/bin/f", None);
    let with = with_version(b, &Some("9.9\n".to_string()));
    assert_eq!(with.name, "F");
    assert_eq!(with.path, "/usr/bin/f");
    assert_eq!(with.version, Some("9.9".to_string()));

    let b2 = browser("F", "/usr/bin/f", None);
    let without = with_version(b2, &None);
    assert_eq!(without.version, None);
}

#[test]
fn executable_names_per_platform() {
    assert_eq!(executable_name("chrome", Platform::Windows), "chrome.exe");
    assert_eq!(executable_name("chrome", Platform::Unix), "chrome");
    assert_eq!(executable_name("chrome", Platform::MacOs), "chrome");
}

#[test]
fn known_browser_table() {
    let table = known_browsers();
    assert_eq!(table.len(), 6);
    assert_eq!(table[0], ("Google Chrome".to_string(), "chrome".to_string()));
    assert_eq!(table[5], ("Chromium".to_string(), "chromium".to_string()));
}

#[test]
fn unix_install_locations() {
    let env = empty_env();
    assert_eq!(
        common_paths("firefox", Platform::Unix, &env),
        vec![
            "/usr/bin/firefox".to_string(),
            "/usr/local/bin/firefox".to_string(),
            "/snap/bin/firefox".to_string(),
            "/opt/firefox/firefox".to_string(),
        ]
    );
}

#[test]
fn windows_install_locations_use_environment() {
    let env = ProbeEnv {
        program_files: "C:\\PF".to_string(),
        program_files_x86: "C:\\PF86".to_string(),
        local_app_data: "C:\\LAD".to_string(),
    };
    let paths = common_paths("chrome.exe", Platform::Windows, &env);
    assert_eq!(paths.len(), 6);
    assert_eq!(paths[0], "C:\\PF\\Google\\Chrome\\Application\\chrome.exe");
    assert_eq!(paths[3], "C:\\PF86\\Microsoft\\Edge\\Application\\chrome.exe");
    assert_eq!(paths[5], "C:\\LAD\\Programs\\chrome.exe");
}

#[test]
fn macos_chrome_has_bundle_alias() {
    let env = empty_env();
    let paths = common_paths("chrome", Platform::MacOs, &env);
    assert_eq!(
        paths,
        vec![
            "/Applications/chrome.app/Contents/MacOS/chrome".to_string(),
            "/Applications/Google Chrome.app/Contents/MacOS/Google Chrome".to_string(),
        ]
    );
    let others = common_paths("opera", Platform::MacOs, &env);
    assert_eq!(others, vec!["/Applications/opera.app/Contents/MacOS/opera".to_string()]);
}

#[test]
fn registry_command_is_cleaned() {
    assert_eq!(clean_command_path("\"C:\\ff.exe\" -osint -url \"%1\""), "C:\\ff.exe");
    assert_eq!(clean_command_path("  /usr/bin/thing --flag"), "/usr/bin/thing");
    assert_eq!(clean_command_path(""), "");
}

#[test]
fn quoted_registry_command_keeps_spaces_in_path() {
    // A quoted install path with spaces survives whole; only the closing
    // quote and the arguments fall off.
    assert_eq!(
        clean_command_path("\"C:\\Program Files\\Mozilla Firefox\\firefox.exe\" -osint -url \"%1\""),
        "C:\\Program Files\\Mozilla Firefox\\firefox.exe"
    );
    // A quote that never closes keeps the rest as the path.
    assert_eq!(clean_command_path("\"C:\\odd.exe"), "C:\\odd.exe");
}

#[test]
fn registry_entry_with_existing_target() {
    let e = RegistryEntry {
        name: "SHELL.SH".to_string(),
        command: "\"/bin/sh\" -c \"%1\"".to_string(),
    };
    let b = registry_browser(&e).expect("an existing target is emitted");
    assert_eq!(b.name, "sh");
    assert_eq!(b.version, None);
}

#[test]
fn registry_entry_with_missing_target_is_skipped() {
    let e = RegistryEntry {
        name: "Ghost".to_string(),
        command: "\"C:\\nowhere\\ghost.exe\" \"%1\"".to_string(),
    };
    assert!(registry_browser(&e).is_none());
}

#[test]
fn registry_name_falls_back_to_entry_name() {
    // The root directory exists but carries no file name, so the entry's
    // own name is used.
    let e = RegistryEntry { name: "RootBrowser".to_string(), command: "/".to_string() };
    let b = registry_browser(&e).expect("the root path exists");
    assert_eq!(b.name, "RootBrowser");
}

#[test]
fn registry_listing_skips_bad_entries() {
    let list = vec![
        RegistryEntry { name: "A".to_string(), command: "\"/bin/sh\"".to_string() },
        RegistryEntry { name: "B".to_string(), command: "/definitely/not/here".to_string() },
    ];
    let found = registry_browsers(&list);
    assert_eq!(found.len(), 1);
    assert_eq!(found[0].name, "sh");
}

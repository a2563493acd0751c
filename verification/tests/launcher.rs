//! The launcher's menu and preference decisions, the fast probe's tables,
//! and the report files.

use quick_tabs::menu::manual_preference;
use quick_tabs::menu::menu_action;
use quick_tabs::menu::parse_link_lines;
use quick_tabs::menu::pick_launch_browser;
use quick_tabs::menu::preference_choice;
use quick_tabs::menu::MenuAction;
use quick_tabs::menu::PreferenceChoice;
use quick_tabs::quickprobe::browser_candidates;
use quick_tabs::quickprobe::candidate_dirs_from;
use quick_tabs::quickprobe::candidate_executables;
use quick_tabs::quickprobe::candidate_paths_quick;
use quick_tabs::quickprobe::default_browser_from_desktop;
use quick_tabs::quickprobe::detect_all;
use quick_tabs::quickprobe::is_browser_executable;
use quick_tabs::quickprobe::join_path;
use quick_tabs::quickprobe::probe_quick;
use quick_tabs::quickprobe::progid_executable;
use quick_tabs::quickprobe::should_skip_dir;
use quick_tabs::probe::Platform;
use quick_tabs::report::render_report_json;
use quick_tabs::report::render_report_text;
use quick_tabs::Browser;

fn browser(name: &str, path: &str, version: Option<&str>) -> Browser {
    Browser {
        name: name.to_string(),
        path: path.to_string(),
        version: version.map(|v| v.to_string()),
    }
}

#[test]
fn menu_lines_select_actions() {
    assert_eq!(menu_action("1"), MenuAction::AddLink);
    assert_eq!(menu_action(" 2 "), MenuAction::ListLinks);
    assert_eq!(menu_action("3"), MenuAction::OpenLinks);
    assert_eq!(menu_action("4\n"), MenuAction::Redetect);
    assert_eq!(menu_action("5"), MenuAction::ChoosePreferred);
    assert_eq!(menu_action("6"), MenuAction::Quit);
    assert_eq!(menu_action("7"), MenuAction::Unknown);
    assert_eq!(menu_action(""), MenuAction::Unknown);
    assert_eq!(menu_action("12"), MenuAction::Unknown);
}

#[test]
fn preference_prompt_interpretation() {
    assert_eq!(preference_choice("m", 3), PreferenceChoice::ManualPath);
    assert_eq!(preference_choice("K", 3), PreferenceChoice::KeepCurrent);
    assert_eq!(preference_choice("2", 3), PreferenceChoice::Pick(1));
    assert_eq!(preference_choice("4", 3), PreferenceChoice::NoChange);
    assert_eq!(preference_choice("zz", 3), PreferenceChoice::NoChange);
}

#[test]
fn manual_preference_needs_nonempty_path() {
    assert_eq!(manual_preference("  /opt/b  "), Some("/opt/b".to_string()));
    assert_eq!(manual_preference("   "), None);
}

#[test]
fn launch_browser_priority() {
    let found = vec![browser("A", "/bin/a", None)];
    let none_found: Vec<Browser> = Vec::new();
    assert_eq!(
        pick_launch_browser(&Some("/pref".to_string()), &Some("/chosen".to_string()), &found),
        Some("/pref".to_string())
    );
    assert_eq!(
        pick_launch_browser(&None, &Some("/chosen".to_string()), &found),
        Some("/chosen".to_string())
    );
    assert_eq!(pick_launch_browser(&None, &None, &found), Some("/bin/a".to_string()));
    assert_eq!(pick_launch_browser(&None, &None, &none_found), None);
}

#[test]
fn link_lines_are_trimmed_and_filtered() {
    let text = "https://a\n  https://b  \n\n   \nhttps://c";
    assert_eq!(
        parse_link_lines(text),
        vec!["https://a".to_string(), "https://b".to_string(), "https://c".to_string()]
    );
    assert_eq!(parse_link_lines(""), Vec::<String>::new());
    assert_eq!(parse_link_lines("\n\n"), Vec::<String>::new());
}

#[test]
fn candidate_tables() {
    let exes = candidate_executables();
    assert_eq!(exes.len(), 15);
    assert!(exes.contains(&"firefox".to_string()));
    assert!(exes.contains(&"msedge.exe".to_string()));

    let quick = candidate_paths_quick(
        &Some("C:\\PF".to_string()),
        &None,
        &Some("C:\\LAD".to_string()),
    );
    assert_eq!(
        quick,
        vec![
            "C:\\PF\\Google\\Chrome\\Application\\chrome.exe".to_string(),
            "C:\\LAD\\Chromium\\Application\\chrome.exe".to_string(),
            "C:\\PF\\BraveSoftware\\Brave-Browser\\Application\\brave.exe".to_string(),
            "C:\\PF\\Mozilla Firefox\\firefox.exe".to_string(),
        ]
    );
}

#[test]
fn deep_scan_tables() {
    let names = browser_candidates();
    assert_eq!(names.len(), 12);
    assert!(names.contains(&"brave-browser".to_string()));

    assert_eq!(
        candidate_dirs_from(Platform::Unix, &Some("/home/u".to_string()), &None),
        vec![
            "/usr/bin".to_string(),
            "/usr/local/bin".to_string(),
            "/home/u/.local/share/applications".to_string(),
        ]
    );
    assert_eq!(
        candidate_dirs_from(Platform::Windows, &None, &Some("C:\\LAD".to_string())),
        vec![
            "C:\\Program Files".to_string(),
            "C:\\Program Files (x86)".to_string(),
            "C:\\LAD".to_string(),
        ]
    );
    assert_eq!(
        candidate_dirs_from(Platform::MacOs, &None, &None),
        vec![
            "/Applications".to_string(),
            "//Applications".to_string(),
            "/usr/bin".to_string(),
            "/usr/local/bin".to_string(),
        ]
    );
}

#[test]
fn oversized_numbers_do_not_select() {
    assert_eq!(
        preference_choice("18446744073709551617", 3),
        PreferenceChoice::NoChange
    );
}

#[test]
fn join_path_respects_separators() {
    assert_eq!(join_path("/usr/bin", "sh", Platform::Unix), "/usr/bin/sh");
    assert_eq!(join_path("/usr/bin/", "sh", Platform::Unix), "/usr/bin/sh");
    assert_eq!(join_path("C:\\d", "x.exe", Platform::Windows), "C:\\d\\x.exe");
    assert_eq!(join_path("", "x", Platform::Unix), "/x");
}

#[test]
fn quick_probe_finds_exact_paths() {
    let quick = vec!["/bin/sh".to_string(), "/no/such/file".to_string()];
    let found = probe_quick(&quick, &Vec::new(), Platform::Unix);
    assert_eq!(found.len(), 1);
    assert_eq!(found[0].name, "sh");
    assert_eq!(found[0].version, None);
}

#[test]
fn desktop_identifier_resolves_via_search_path() {
    let found = default_browser_from_desktop(&Some("sh.desktop\n".to_string()))
        .expect("sh is on the search path");
    assert_eq!(found.name, "sh");
    assert!(default_browser_from_desktop(&None).is_none());
    assert!(default_browser_from_desktop(&Some("   ".to_string())).is_none());
    assert!(default_browser_from_desktop(&Some("no-such-cmd-xyz.desktop".to_string())).is_none());
}

#[test]
fn progids_map_to_executables() {
    assert_eq!(progid_executable("ChromeHTML"), Some("chrome.exe".to_string()));
    assert_eq!(progid_executable("chromehtml"), Some("chrome.exe".to_string()));
    assert_eq!(progid_executable("FirefoxURL"), Some("firefox.exe".to_string()));
    assert_eq!(progid_executable("MSEdgeHTM"), Some("msedge.exe".to_string()));
    assert_eq!(progid_executable("OperaStable"), Some("opera.exe".to_string()));
    assert_eq!(progid_executable("BraveHTML"), Some("brave.exe".to_string()));
    assert_eq!(progid_executable("SomethingElse"), None);
}

#[test]
fn deep_search_name_matching() {
    let cands = candidate_executables();
    assert!(is_browser_executable("FIREFOX", &cands));
    assert!(is_browser_executable("chrome.EXE", &cands));
    assert!(!is_browser_executable("sh", &cands));
    assert!(should_skip_dir("Windows", Platform::Windows));
    assert!(should_skip_dir("$Recycle.Bin", Platform::Windows));
    assert!(!should_skip_dir("Windows", Platform::Unix));
    assert!(!should_skip_dir("Users", Platform::Windows));
}

#[test]
fn fast_detection_run_is_unique_by_path() {
    let found = detect_all(
        Platform::Unix,
        &Vec::new(),
        &None,
        &None,
        &None,
        &Vec::new(),
        &Some("sh.desktop".to_string()),
    );
    // The default-browser hint goes in front.
    assert!(!found.is_empty());
    assert_eq!(found[0].name, "sh");
    for a in 0..found.len() {
        for b in (a + 1)..found.len() {
            assert_ne!(found[a].path, found[b].path);
        }
    }
}

#[test]
fn report_files_render() {
    let list = vec![
        browser("Firefox", "/usr/bin/firefox", Some("124")),
        browser("Chromium", "/usr/bin/chromium", None),
    ];
    assert_eq!(
        render_report_json(&list),
        "[{\"name\":\"Firefox\",\"path\":\"/usr/bin/firefox\",\"version\":\"124\"},{\"name\":\"Chromium\",\"path\":\"/usr/bin/chromium\",\"version\":null}]"
    );
    assert_eq!(
        render_report_text(&list),
        "Firefox = /usr/bin/firefox\nChromium = /usr/bin/chromium\n"
    );

    let v: serde_json::Value = serde_json::from_str(&render_report_json(&list)).unwrap();
    assert_eq!(v.as_array().unwrap().len(), 2);
    assert_eq!(v[1]["version"], serde_json::Value::Null);

    assert_eq!(render_report_json(&Vec::new()), "[]");
    assert_eq!(render_report_text(&Vec::new()), "");
}

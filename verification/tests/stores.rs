//! The link and alias stores, and the launch-argument rules.

use quick_tabs::aliases::AliasConfig;
use quick_tabs::links::get_private_flags;
use quick_tabs::links::launch_args;
use quick_tabs::links::LaunchMode;
use quick_tabs::links::LinkConfig;

#[test]
fn links_add_and_get() {
    let mut cfg = LinkConfig::new();
    cfg.add_link("mail".to_string(), "https://mail.example".to_string());
    cfg.add_link("news".to_string(), "https://news.example".to_string());
    assert_eq!(cfg.get_url("mail"), Some("https://mail.example".to_string()));
    assert_eq!(cfg.get_url("news"), Some("https://news.example".to_string()));
    assert_eq!(cfg.get_url("nope"), None);
}

#[test]
fn links_replace_moves_tag_to_end() {
    let mut cfg = LinkConfig::new();
    cfg.add_link("a".to_string(), "https://one".to_string());
    cfg.add_link("b".to_string(), "https://two".to_string());
    cfg.add_link("a".to_string(), "https://three".to_string());
    assert_eq!(cfg.get_url("a"), Some("https://three".to_string()));
    assert_eq!(
        cfg.collect_urls(),
        vec!["https://two".to_string(), "https://three".to_string()]
    );
}

#[test]
fn links_remove() {
    let mut cfg = LinkConfig::new();
    cfg.add_link("a".to_string(), "https://one".to_string());
    assert!(cfg.remove_link("a"));
    assert!(!cfg.remove_link("a"));
    assert_eq!(cfg.get_url("a"), None);
}

#[test]
fn links_collect_urls_in_order() {
    let mut cfg = LinkConfig::new();
    cfg.add_link("1".to_string(), "u1".to_string());
    cfg.add_link("2".to_string(), "u2".to_string());
    cfg.add_link("3".to_string(), "u3".to_string());
    assert_eq!(cfg.collect_urls(), vec!["u1".to_string(), "u2".to_string(), "u3".to_string()]);
}

#[test]
fn aliases_add_resolve_remove() {
    let mut cfg = AliasConfig::new();
    cfg.add_alias("gh".to_string(), "https://github.example".to_string());
    assert_eq!(cfg.resolve("gh"), Some("https://github.example".to_string()));
    assert_eq!(cfg.resolve("gl"), None);
    cfg.add_alias("gh".to_string(), "https://elsewhere.example".to_string());
    assert_eq!(cfg.resolve("gh"), Some("https://elsewhere.example".to_string()));
    assert!(cfg.remove_alias("gh"));
    assert!(!cfg.remove_alias("gh"));
    assert_eq!(cfg.resolve("gh"), None);
}

#[test]
fn aliases_collect_urls_in_storage_order() {
    let mut cfg = AliasConfig::new();
    cfg.add_alias("a".to_string(), "https://one".to_string());
    cfg.add_alias("b".to_string(), "https://two".to_string());
    assert_eq!(cfg.collect_urls(), vec!["https://one".to_string(), "https://two".to_string()]);
    // Replacing a tag moves it to the end, as the store keeps one pair per
    // tag.
    cfg.add_alias("a".to_string(), "https://three".to_string());
    assert_eq!(cfg.collect_urls(), vec!["https://two".to_string(), "https://three".to_string()]);
}

#[test]
fn private_flags_per_family() {
    assert_eq!(get_private_flags("/usr/bin/firefox"), vec!["-private-window".to_string()]);
    assert_eq!(
        get_private_flags("C:\\Program Files\\Edge\\msedge.exe"),
        vec!["--inprivate".to_string()]
    );
    assert_eq!(get_private_flags("/opt/chrome/chrome"), vec!["--incognito".to_string()]);
    assert_eq!(get_private_flags("/usr/bin/chromium"), vec!["--incognito".to_string()]);
    assert_eq!(get_private_flags("/usr/bin/brave-browser"), vec!["--incognito".to_string()]);
    assert_eq!(get_private_flags("/usr/bin/vivaldi"), vec!["--incognito".to_string()]);
}

#[test]
fn private_flags_ignore_case() {
    assert_eq!(get_private_flags("C:\\FIREFOX.EXE"), vec!["-private-window".to_string()]);
}

#[test]
fn unknown_family_has_no_private_flag() {
    assert_eq!(get_private_flags("/usr/bin/opera"), Vec::<String>::new());
    assert_eq!(get_private_flags("/Applications/Safari.app/Contents/MacOS/Safari"), Vec::<
        String,
    >::new());
}

#[test]
fn private_flags_use_file_name_not_directory() {
    // The family is read off the executable's file name; a directory that
    // merely mentions a family does not count.
    assert_eq!(get_private_flags("/home/firefox-fan/bin/opera"), Vec::<String>::new());
}

#[test]
fn launch_args_private_puts_flags_first() {
    let urls = vec!["https://a".to_string(), "https://b".to_string()];
    assert_eq!(
        launch_args("/usr/bin/firefox", &urls, LaunchMode::Private),
        vec!["-private-window".to_string(), "https://a".to_string(), "https://b".to_string()]
    );
}

#[test]
fn launch_args_normal_is_urls_only() {
    let urls = vec!["https://a".to_string()];
    assert_eq!(launch_args("/usr/bin/firefox", &urls, LaunchMode::Normal), urls);
}

#[test]
fn launch_args_unknown_family_private_launches_plainly() {
    let urls = vec!["https://a".to_string()];
    assert_eq!(launch_args("/usr/bin/opera", &urls, LaunchMode::Private), urls);
}

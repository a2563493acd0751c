//! The config store's codec: rendering, parsing, the save/load round trip,
//! and the stale-path rule.

use quick_tabs::config::load_config;
use quick_tabs::config::parse_config;
use quick_tabs::config::render_config;
use quick_tabs::config::config_path_from;
use quick_tabs::Browser;

fn browser(name: &str, path: &str, version: Option<&str>) -> Browser {
    Browser {
        name: name.to_string(),
        path: path.to_string(),
        version: version.map(|v| v.to_string()),
    }
}

#[test]
fn render_exact_null_version() {
    let b = browser("Firefox", "/usr/bin/firefox", None);
    assert_eq!(
        render_config(&b),
        "{\"browser\":{\"name\":\"Firefox\",\"path\":\"/usr/bin/firefox\",\"version\":null}}"
    );
}

#[test]
fn render_exact_with_version() {
    let b = browser("Chrome", "/opt/c", Some("99.1"));
    assert_eq!(
        render_config(&b),
        "{\"browser\":{\"name\":\"Chrome\",\"path\":\"/opt/c\",\"version\":\"99.1\"}}"
    );
}

#[test]
fn round_trip_plain() {
    let b = browser("Google Chrome", "/usr/bin/google-chrome", Some("124.0"));
    let rendered = render_config(&b);
    let back = parse_config(&rendered).expect("rendered config must parse");
    assert_eq!(back, b);
}

#[test]
fn round_trip_null_version() {
    let b = browser("Brave", "/usr/bin/brave", None);
    let back = parse_config(&render_config(&b)).unwrap();
    assert_eq!(back, b);
}

#[test]
fn round_trip_escaped_characters() {
    let b = browser("we\"ird\\name", "/tmp/pa th\nline\ttab\rcr", Some("v\"1\\2"));
    let back = parse_config(&render_config(&b)).unwrap();
    assert_eq!(back, b);
}

#[test]
fn rendered_config_is_valid_json() {
    let b = browser("Fire \"fox\"", "/usr/bin/fire\\fox", Some("1.0\n2"));
    let rendered = render_config(&b);
    let v: serde_json::Value = serde_json::from_str(&rendered).expect("must be valid JSON");
    assert_eq!(v["browser"]["name"].as_str().unwrap(), "Fire \"fox\"");
    assert_eq!(v["browser"]["path"].as_str().unwrap(), "/usr/bin/fire\\fox");
    assert_eq!(v["browser"]["version"].as_str().unwrap(), "1.0\n2");
}

#[test]
fn parse_accepts_whitespace_between_tokens() {
    let text = " { \"browser\" :\n { \"name\" : \"F\" ,\t\"path\" : \"/bin/sh\" , \"version\" : null } } \n";
    let b = parse_config(text).expect("whitespace-separated config must parse");
    assert_eq!(b.name, "F");
    assert_eq!(b.path, "/bin/sh");
    assert_eq!(b.version, None);
}

#[test]
fn parse_rejects_garbage() {
    assert!(parse_config("").is_none());
    assert!(parse_config("not json at all").is_none());
    assert!(parse_config("{\"browser\":{}}").is_none());
    assert!(parse_config("{\"other\":{\"name\":\"x\",\"path\":\"y\",\"version\":null}}").is_none());
    // trailing junk after the object
    assert!(
        parse_config("{\"browser\":{\"name\":\"a\",\"path\":\"b\",\"version\":null}} extra")
            .is_none()
    );
    // an escape outside the table
    assert!(
        parse_config("{\"browser\":{\"name\":\"a\\qb\",\"path\":\"b\",\"version\":null}}").is_none()
    );
}

#[test]
fn save_then_load_returns_saved_browser() {
    // The stored path exists on disk, so the loaded record equals the saved
    // one.
    let b = browser("Shell", "/bin/sh", Some("posix"));
    let saved = render_config(&b);
    let loaded = load_config(&Some(saved)).expect("saved browser must load back");
    assert_eq!(loaded, b);
}

#[test]
fn load_drops_stale_path() {
    // A parseable record whose path no longer exists reads as "no saved
    // browser".
    let b = browser("Gone", "/no/such/binary/anywhere-at-all", Some("1"));
    let saved = render_config(&b);
    assert!(load_config(&Some(saved)).is_none());
}

#[test]
fn load_handles_absent_and_garbled_files() {
    assert!(load_config(&None).is_none());
    assert!(load_config(&Some("{broken".to_string())).is_none());
}

#[test]
fn config_path_layout() {
    assert_eq!(
        config_path_from(&Some("/home/u/.config".to_string())),
        "/home/u/.config/quick_tabs/browser_config.json"
    );
    assert_eq!(config_path_from(&None), "./quick_tabs/browser_config.json");
}

#[test]
fn parses_a_pretty_printed_file() {
    // A config written by a pretty-printing JSON serializer, with the same
    // field order, reads back fine.
    let mut inner = serde_json::Map::new();
    inner.insert("name".to_string(), serde_json::Value::String("Opera".to_string()));
    inner.insert("path".to_string(), serde_json::Value::String("/bin/sh".to_string()));
    inner.insert("version".to_string(), serde_json::Value::Null);
    let mut outer = serde_json::Map::new();
    outer.insert("browser".to_string(), serde_json::Value::Object(inner));
    let pretty = serde_json::to_string_pretty(&serde_json::Value::Object(outer)).unwrap();

    let b = parse_config(&pretty).expect("pretty-printed config must parse");
    assert_eq!(b.name, "Opera");
    assert_eq!(b.path, "/bin/sh");
    assert_eq!(b.version, None);
}

use grafana_notify::config::{
    default_heartbeat_alert_name, save_result, startup_config, AppConfig, ConfigFile,
    GrafanaServer, StoreOutcome,
};
use grafana_notify::endpoint::{alerts_endpoint, poll_request, silence_requests, silences_endpoint};
use grafana_notify::string_map::{StringMap, StringSet};
use grafana_notify::text::{is_blank, is_whitespace, join, same_text, trim_trailing_slashes};

fn server(url: &str, token: &str) -> GrafanaServer {
    GrafanaServer { url: url.to_string(), token: token.to_string() }
}

fn legacy(urls: &[&str], token: &str) -> AppConfig {
    AppConfig {
        servers: Vec::new(),
        polling_interval_secs: 30,
        heartbeat_alert_name: "HB".to_string(),
        legacy_urls: urls.iter().map(|u| u.to_string()).collect(),
        legacy_token: token.to_string(),
    }
}

#[test]
fn defaults() {
    assert_eq!(default_heartbeat_alert_name(), "AlwaysFiringTest");
    let config = AppConfig::default();
    assert_eq!(config.servers.len(), 1);
    assert_eq!(config.servers[0].url, "http://localhost:3000");
    assert_eq!(config.servers[0].token, "");
    assert_eq!(config.polling_interval_secs, 60);
    assert_eq!(config.heartbeat_alert_name, "AlwaysFiringTest");
    assert!(config.legacy_urls.is_empty());
    assert_eq!(config.legacy_token, "");
    assert_eq!(GrafanaServer::default().url, "");
    assert_eq!(GrafanaServer::default().token, "");
}

#[test]
fn legacy_urls_become_servers_with_the_shared_token() {
    let mut config = legacy(&["http://a", "http://b"], "tok");
    config.normalize();
    assert_eq!(config.servers.len(), 2);
    assert_eq!(config.servers[0].url, "http://a");
    assert_eq!(config.servers[0].token, "tok");
    assert_eq!(config.servers[1].url, "http://b");
    assert_eq!(config.servers[1].token, "tok");
    assert!(config.legacy_urls.is_empty());
    assert_eq!(config.legacy_token, "");
    assert_eq!(config.polling_interval_secs, 30);
    // Once more changes nothing.
    config.normalize();
    assert_eq!(config.servers.len(), 2);
    assert_eq!(config.servers[1].url, "http://b");
}

#[test]
fn listed_servers_win_over_legacy_urls() {
    let mut config = legacy(&["http://a"], "tok");
    config.servers.push(server("http://c", "own"));
    config.normalize();
    assert_eq!(config.servers.len(), 1);
    assert_eq!(config.servers[0].url, "http://c");
    assert_eq!(config.servers[0].token, "own");
    assert!(config.legacy_urls.is_empty());
    assert_eq!(config.legacy_token, "");
}

#[test]
fn a_configuration_that_cannot_be_read_changes_nothing() {
    let mut config = AppConfig::default();
    config.refresh(Some(legacy(&["http://a"], "tok")));
    assert_eq!(config.servers[0].url, "http://a");
    assert_eq!(config.servers[0].token, "tok");
    config.refresh(None);
    assert_eq!(config.servers[0].url, "http://a");
    assert_eq!(config.heartbeat_alert_name, "HB");
}

#[test]
fn what_the_user_entered_is_taken_over() {
    let mut config = AppConfig::default();
    config.update(vec![server("http://x", "t")], 15, "Probe".to_string());
    assert_eq!(config.servers.len(), 1);
    assert_eq!(config.servers[0].url, "http://x");
    assert_eq!(config.polling_interval_secs, 15);
    assert_eq!(config.heartbeat_alert_name, "Probe");
    let copy = config.clone();
    assert_eq!(copy.servers[0].token, "t");
    assert_eq!(copy.polling_interval_secs, 15);
    assert_eq!(copy.heartbeat_alert_name, "Probe");
}

#[test]
fn startup() {
    let missing = startup_config(ConfigFile::Missing);
    assert!(missing.write_default);
    assert_eq!(missing.config.servers[0].url, "http://localhost:3000");
    let unreadable = startup_config(ConfigFile::Unreadable);
    assert!(!unreadable.write_default);
    assert_eq!(unreadable.config.polling_interval_secs, 60);
    let unparsable = startup_config(ConfigFile::Unparsable);
    assert!(!unparsable.write_default);
    assert_eq!(unparsable.config.heartbeat_alert_name, "AlwaysFiringTest");
    let parsed = startup_config(ConfigFile::Parsed(legacy(&["http://a"], "tok")));
    assert!(!parsed.write_default);
    assert_eq!(parsed.config.servers[0].url, "http://a");
    assert!(parsed.config.legacy_urls.is_empty());
}

#[test]
fn saving() {
    assert_eq!(save_result(StoreOutcome::Written), Ok(()));
    assert_eq!(save_result(StoreOutcome::NotEncoded), Ok(()));
    assert_eq!(
        save_result(StoreOutcome::Failed("disk full".to_string())),
        Err("Failed to save config file: disk full".to_string())
    );
}

#[test]
fn endpoints() {
    assert_eq!(
        alerts_endpoint("http://h:3000"),
        "http://h:3000/api/alertmanager/grafana/api/v2/alerts"
    );
    assert_eq!(
        alerts_endpoint("http://h:3000//"),
        "http://h:3000/api/alertmanager/grafana/api/v2/alerts"
    );
    assert_eq!(
        silences_endpoint("http://h:3000/sub/"),
        "http://h:3000/sub/api/alertmanager/grafana/api/v2/silences"
    );
    assert_eq!(alerts_endpoint("é/"), "é/api/alertmanager/grafana/api/v2/alerts");
}

#[test]
fn polling_requests() {
    assert!(poll_request(&server("", "t")).is_none());
    assert!(poll_request(&server("///", "t")).is_none());
    let plain = poll_request(&server("http://h/", " \t\n")).expect("a request");
    assert_eq!(plain.url, "http://h/api/alertmanager/grafana/api/v2/alerts");
    assert_eq!(plain.bearer, None);
    let authorized = poll_request(&server("http://h", " t ")).expect("a request");
    assert_eq!(authorized.bearer.as_deref(), Some(" t "));
    assert!(poll_request(&server(" ", "")).is_some());
}

#[test]
fn silencing_requests() {
    let servers = vec![server("http://a/", "t"), server(" \u{3000}", "t"), server("http://b", "")];
    let requests = silence_requests(&servers);
    assert_eq!(requests.len(), 2);
    assert_eq!(requests[0].url, "http://a/api/alertmanager/grafana/api/v2/silences");
    assert_eq!(requests[0].bearer.as_deref(), Some("t"));
    assert_eq!(requests[1].url, "http://b/api/alertmanager/grafana/api/v2/silences");
    assert_eq!(requests[1].bearer, None);
    assert_eq!(silence_requests(&vec![server("/", "")]).len(), 1);
}

#[test]
fn whitespace_is_that_of_unicode() {
    for code in 0..=0x10FFFFu32 {
        if let Some(c) = char::from_u32(code) {
            assert_eq!(is_whitespace(c), c.is_whitespace(), "{:x}", code);
        }
    }
    for text in ["", " ", "a", " a", "\u{85}\u{2028}", "\u{200b}", "  \n\t"] {
        assert_eq!(is_blank(text), text.trim().is_empty(), "{:?}", text);
    }
}

#[test]
fn slashes_at_the_end_are_trimmed() {
    for text in ["", "/", "///", "a", "a/", "a//", "/a", "a/b/", "é//", "/é/x"] {
        assert_eq!(trim_trailing_slashes(text), text.trim_end_matches('/'));
    }
}

#[test]
fn text_helpers() {
    assert!(same_text("active", "active"));
    assert!(!same_text("active", "Active"));
    assert_eq!(join("a", "b"), "ab");
    assert_eq!(join("", ""), "");
}

#[test]
fn string_maps() {
    let mut map: StringMap<String> = StringMap::new();
    assert!(map.is_empty());
    assert!(map.get("a").is_none());
    map.insert("a".to_string(), "1".to_string());
    map.insert("b".to_string(), "2".to_string());
    map.insert("a".to_string(), "3".to_string());
    assert!(!map.is_empty());
    assert_eq!(map.get("a").map(|s| s.as_str()), Some("3"));
    assert_eq!(map.get("b").map(|s| s.as_str()), Some("2"));
    assert_eq!(map.entries().len(), 2);
    let copy = map.clone();
    assert_eq!(copy.get("a").map(|s| s.as_str()), Some("3"));
}

#[test]
fn string_sets() {
    let mut set = StringSet::new();
    set.insert("a".to_string());
    set.insert("b".to_string());
    set.insert("a".to_string());
    assert!(set.contains("a"));
    assert!(!set.contains("c"));
    let mut other = StringSet::new();
    other.insert("b".to_string());
    other.insert("c".to_string());
    set.retain_in(&other);
    assert!(!set.contains("a"));
    assert!(set.contains("b"));
    assert!(!set.contains("c"));
}

#[test]
fn what_was_entered_is_read_back() {
    let mut config = AppConfig::default();
    config.update(vec![server("http://x/", " t ")], 5, "Probe".to_string());
    let entered = config.clone();
    let mut other = AppConfig::default();
    other.refresh(Some(entered));
    assert_eq!(other.servers.len(), 1);
    assert_eq!(other.servers[0].url, "http://x/");
    assert_eq!(other.servers[0].token, " t ");
    assert_eq!(other.polling_interval_secs, 5);
    assert_eq!(other.heartbeat_alert_name, "Probe");
    config.update(Vec::new(), 5, String::new());
    other.refresh(Some(config));
    assert!(other.servers.is_empty());
    assert!(other.legacy_urls.is_empty());
    assert_eq!(other.legacy_token, "");
}

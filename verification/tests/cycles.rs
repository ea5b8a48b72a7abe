use grafana_notify::alert::{Alert, AlertStatus};
use grafana_notify::clock::{UtcInstant, FIRST_SECOND, LAST_SECOND};
use grafana_notify::config::{AppConfig, GrafanaServer};
use grafana_notify::desktop::{
    click_action, menu_action, open_dir_error, tray_icon, DesktopAction, TrayIcon,
};
use grafana_notify::notification::{
    connection_lost, connection_restored, firing_notification, labelled_notification,
    resolved_notification,
};
use grafana_notify::poll::{read_reply, Reply, ServerPoll};
use grafana_notify::silence::{silence_between, silence_fits, silence_payload};
use grafana_notify::state::{run_polling_cycle, Action, AppState, ServerReply};
use grafana_notify::string_map::StringMap;

const NOW: &str = "2024-01-01T00:00:00+00:00";

fn instant() -> UtcInstant {
    UtcInstant { secs: 1_704_067_200, nanos: 0 }
}

fn alert(fingerprint: &str, name: &str, severity: &str) -> Alert {
    let mut labels = StringMap::new();
    labels.insert("alertname".to_string(), name.to_string());
    labels.insert("severity".to_string(), severity.to_string());
    Alert {
        fingerprint: fingerprint.to_string(),
        status: AlertStatus { state: "active".to_string() },
        labels,
        annotations: StringMap::new(),
        starts_at: "t".to_string(),
        generator_url: None,
        source_url: None,
    }
}

fn poll(url: &str, outcome: Result<Vec<Alert>, &str>) -> ServerPoll {
    ServerPoll {
        server: GrafanaServer { url: url.to_string(), token: String::new() },
        outcome: Some(outcome.map_err(|e| e.to_string())),
    }
}

fn reply(url: &str, reply: Reply) -> ServerReply {
    ServerReply {
        server: GrafanaServer { url: url.to_string(), token: String::new() },
        reply: Some(reply),
    }
}

/// The actions in short: `T+` or `T-` for the tray, titles for notifications.
fn short(actions: &[Action]) -> Vec<String> {
    actions
        .iter()
        .map(|a| match a {
            Action::Notify(n) => n.title.clone(),
            Action::ShowTray { has_error: true } => "T+".to_string(),
            Action::ShowTray { has_error: false } => "T-".to_string(),
        })
        .collect()
}

fn state() -> AppState {
    AppState::new(AppConfig::default())
}

#[test]
fn the_first_state_knows_nothing() {
    let s = state();
    assert!(s.active_alerts.is_empty());
    assert!(s.connection_errors.is_empty());
    assert!(s.server_statuses.is_empty());
    assert!(!s.all_down_notified);
    assert_eq!(s.config.polling_interval_secs, 60);
}

#[test]
fn replies_are_worded() {
    let error = |r: Reply| read_reply(&r).err();
    assert_eq!(
        error(Reply::ConnectionFailed("refused".to_string())).as_deref(),
        Some("Connection Error: refused")
    );
    assert_eq!(
        error(Reply::HttpError("401 Unauthorized".to_string())).as_deref(),
        Some("HTTP Error: 401 Unauthorized")
    );
    assert_eq!(error(Reply::Unreadable).as_deref(), Some("JSON Parsing Error"));
    assert_eq!(error(Reply::Body("{}".to_string())).as_deref(), Some("JSON Parsing Error"));
    assert_eq!(error(Reply::Body("nonsense".to_string())).as_deref(), Some("JSON Parsing Error"));
    let body = r#"[{"fingerprint":"f","startsAt":"t"}]"#;
    assert_eq!(read_reply(&Reply::Body(body.to_string())).expect("alerts").len(), 1);
}

#[test]
fn a_whole_cycle_from_replies() {
    let mut s = state();
    let body = r#"[
        {"fingerprint":"hb","status":{"state":"active"},"labels":{"alertname":"AlwaysFiringTest"},"startsAt":"t"},
        {"fingerprint":"d","status":{"state":"active"},"labels":{"alertname":"Disk","severity":"critical"},
         "annotations":{"description":"full"},"startsAt":"t"},
        {"fingerprint":"s","status":{"state":"suppressed"},"labels":{"alertname":"Silent"},"startsAt":"t"},
        {"fingerprint":"broken"}
    ]"#;
    let replies = vec![
        reply("http://a/", Reply::Body(body.to_string())),
        reply("http://b", Reply::HttpError("500 Internal Server Error".to_string())),
        ServerReply { server: GrafanaServer::default(), reply: None },
    ];
    let actions = run_polling_cycle(&mut s, &replies, "AlwaysFiringTest", &instant());
    assert_eq!(short(&actions), vec!["T+", "[CRITICAL] Disk"]);
    match &actions[1] {
        Action::Notify(n) => assert_eq!(n.body, "full"),
        Action::ShowTray { .. } => panic!("not a notification"),
    }
    assert_eq!(s.active_alerts.len(), 1);
    assert_eq!(s.active_alerts[0].fingerprint, "d");
    assert_eq!(s.active_alerts[0].source_url.as_deref(), Some("http://a"));
    assert!(s.notified_fingerprints.contains("d"));
    assert!(!s.notified_fingerprints.contains("hb"));
    let a = s.server_statuses.get("http://a/").expect("a status");
    assert!(a.reachable && a.heartbeat_ok && a.connected);
    assert_eq!(a.url, "http://a/");
    assert_eq!(a.last_heartbeat_at.as_deref(), Some(NOW));
    assert_eq!(a.last_error, None);
    assert_eq!(a.checked_at, NOW);
    let b = s.server_statuses.get("http://b").expect("a status");
    assert!(!b.reachable && !b.heartbeat_ok && !b.connected);
    assert_eq!(b.last_heartbeat_at, None);
    assert_eq!(b.last_error.as_deref(), Some("HTTP Error: 500 Internal Server Error"));
    assert_eq!(
        s.connection_errors.get("http://b").map(|m| m.as_str()),
        Some("HTTP Error: 500 Internal Server Error")
    );
    assert!(s.connection_errors.get("http://a/").is_none());
    assert!(s.server_statuses.get("").is_none());
    assert!(!s.all_down_notified);
}

#[test]
fn an_alert_is_notified_once_and_resolved_once() {
    let mut s = state();
    let firing = || vec![poll("http://a", Ok(vec![alert("f", "Disk", "warning")]))];
    let calm = || vec![poll("http://a", Ok(vec![]))];
    assert_eq!(short(&s.apply_polls(&firing(), "HB", NOW)), vec!["T-", "[WARNING] Disk"]);
    assert_eq!(short(&s.apply_polls(&firing(), "HB", NOW)), vec!["T-"]);
    assert_eq!(short(&s.apply_polls(&calm(), "HB", NOW)), vec!["T-", "[RESOLVED] Disk"]);
    assert_eq!(short(&s.apply_polls(&calm(), "HB", NOW)), vec!["T-"]);
    assert_eq!(short(&s.apply_polls(&firing(), "HB", NOW)), vec!["T-", "[WARNING] Disk"]);
}

#[test]
fn resolved_alerts_come_before_new_ones() {
    let mut s = state();
    s.apply_polls(&vec![poll("a", Ok(vec![alert("1", "Old", "x"), alert("2", "Kept", "x")]))], "", NOW);
    let actions = s.apply_polls(
        &vec![poll("a", Ok(vec![alert("2", "Kept", "x"), alert("3", "New", "x")]))],
        "",
        NOW,
    );
    assert_eq!(short(&actions), vec!["T-", "[RESOLVED] Old", "[X] New"]);
}

#[test]
fn losing_and_regaining_the_connection_is_told_once() {
    let mut s = state();
    let down = || vec![poll("http://a", Err("no")), poll("http://b", Err("no"))];
    let half = || vec![poll("http://a", Ok(vec![])), poll("http://b", Err("no"))];
    assert_eq!(short(&s.apply_polls(&half(), "", NOW)), vec!["T+"]);
    assert_eq!(short(&s.apply_polls(&down(), "", NOW)), vec!["[CRITICAL] Connection Lost", "T+"]);
    assert!(s.all_down_notified);
    assert_eq!(short(&s.apply_polls(&down(), "", NOW)), vec!["T+"]);
    assert_eq!(
        short(&s.apply_polls(&half(), "", NOW)),
        vec!["[RECOVERED] Connection Restored", "T+"]
    );
    assert!(!s.all_down_notified);
}

#[test]
fn a_server_that_is_not_polled_is_not_down() {
    let mut s = state();
    let polls = vec![poll("http://a", Err("no")), poll("///", Err("never sent"))];
    assert_eq!(short(&s.apply_polls(&polls, "", NOW)), vec!["T+"]);
    assert!(!s.all_down_notified);
    assert!(s.connection_errors.get("///").is_none());
    assert_eq!(short(&s.apply_polls(&Vec::new(), "", NOW)), vec!["T-"]);
    assert!(!s.all_down_notified);
}

#[test]
fn the_last_report_of_an_alert_wins() {
    let mut s = state();
    let polls = vec![
        poll("http://a", Ok(vec![alert("f", "First", "x"), alert("g", "Other", "x")])),
        poll("http://b//", Ok(vec![alert("f", "Second", "x")])),
    ];
    s.apply_polls(&polls, "", NOW);
    assert_eq!(s.active_alerts.len(), 2);
    let f = s.active_alerts.iter().find(|a| a.fingerprint == "f").expect("listed");
    assert_eq!(f.labels.get("alertname").map(|n| n.as_str()), Some("Second"));
    assert_eq!(f.source_url.as_deref(), Some("http://b"));
    let g = s.active_alerts.iter().find(|a| a.fingerprint == "g").expect("listed");
    assert_eq!(g.source_url.as_deref(), Some("http://a"));
}

#[test]
fn the_last_heartbeat_stays_known() {
    let mut s = state();
    let beating = vec![poll("http://a", Ok(vec![alert("h", "HB", "x")]))];
    s.apply_polls(&beating, "HB", "early");
    let status = s.server_statuses.get("http://a").expect("a status");
    assert!(status.connected);
    assert_eq!(status.last_heartbeat_at.as_deref(), Some("early"));
    s.apply_polls(&vec![poll("http://a", Ok(vec![]))], "HB", "late");
    let status = s.server_statuses.get("http://a").expect("a status");
    assert!(status.reachable && !status.connected && !status.heartbeat_ok);
    assert_eq!(status.last_heartbeat_at.as_deref(), Some("early"));
    assert_eq!(status.checked_at, "late");
    assert_eq!(status.clone().last_heartbeat_at.as_deref(), Some("early"));
    assert!(s.active_alerts.is_empty());
}

#[test]
fn a_critical_alert_shows_in_the_tray() {
    let mut s = state();
    let polls = vec![poll("a", Ok(vec![alert("f", "Gpu", "critical")]))];
    assert_eq!(short(&s.apply_polls(&polls, "", NOW)), vec!["T+", "[CRITICAL] Gpu"]);
    let polls = vec![poll("a", Ok(vec![alert("f", "Gpu", "Critical")]))];
    assert_eq!(short(&s.apply_polls(&polls, "", NOW)), vec!["T-"]);
}

#[test]
fn notifications_are_worded() {
    let mut a = alert("f", "Disk", "straße");
    assert_eq!(firing_notification(&a).title, "[STRASSE] Disk");
    assert_eq!(firing_notification(&a).body, "No description provided.");
    assert_eq!(labelled_notification(&a, "LOW").title, "[LOW] Disk");
    a.annotations.insert("description".to_string(), "long".to_string());
    assert_eq!(firing_notification(&a).body, "long");
    a.annotations.insert("summary".to_string(), "brief".to_string());
    assert_eq!(firing_notification(&a).body, "brief");
    assert_eq!(resolved_notification(&a).title, "[RESOLVED] Disk");
    assert_eq!(resolved_notification(&a).body, "The alert is no longer firing.");
    a.labels = StringMap::new();
    assert_eq!(firing_notification(&a).title, "[WARNING] Unknown Alert");
    assert_eq!(resolved_notification(&a).title, "[RESOLVED] Unknown Alert");
    assert_eq!(connection_lost().title, "[CRITICAL] Connection Lost");
    assert_eq!(
        connection_lost().body,
        "Failed to connect to all registered Grafana instances."
    );
    assert_eq!(connection_restored().title, "[RECOVERED] Connection Restored");
    assert_eq!(connection_restored().body, "Successfully reconnected to Grafana.");
}

#[test]
fn silences_match_the_name_for_some_hours() {
    let now = UtcInstant { secs: 1_704_067_200, nanos: 123_456_789 };
    assert!(silence_fits(&now, 26));
    let payload = silence_payload("Disk".to_string(), &now, 26);
    assert_eq!(payload.matchers.len(), 1);
    assert_eq!(payload.matchers[0].name, "alertname");
    assert_eq!(payload.matchers[0].value, "Disk");
    assert!(!payload.matchers[0].is_regex);
    assert!(payload.matchers[0].is_equal);
    assert_eq!(payload.starts_at, "2024-01-01T00:00:00.123456789+00:00");
    assert_eq!(payload.ends_at, "2024-01-02T02:00:00.123456789+00:00");
    assert_eq!(payload.created_by, "Notify App");
    assert_eq!(payload.comment, "Silenced via Notify desktop app");
}

#[test]
fn silences_name_their_two_ends() {
    let payload = silence_between("Disk".to_string(), "from".to_string(), "to".to_string());
    assert_eq!(payload.matchers.len(), 1);
    assert_eq!(payload.matchers[0].value, "Disk");
    assert_eq!(payload.starts_at, "from");
    assert_eq!(payload.ends_at, "to");
    assert_eq!(payload.created_by, "Notify App");
}

#[test]
fn silences_end_at_a_date() {
    let now = instant();
    assert!(silence_fits(&now, 0));
    assert!(!silence_fits(&now, 2_562_047_788_015));
    assert!(!silence_fits(&now, i64::MAX as u64));
    // A duration beyond the signed range counts backwards.
    assert!(silence_fits(&now, u64::MAX));
    assert_eq!(
        silence_payload("A".to_string(), &now, u64::MAX).ends_at,
        "2023-12-31T23:00:00+00:00"
    );
}

#[test]
fn instants_have_dates_within_their_range() {
    let first = UtcInstant { secs: FIRST_SECOND, nanos: 0 };
    let last = UtcInstant { secs: LAST_SECOND, nanos: 999_999_999 };
    assert!(first.is_valid());
    assert!(last.is_valid());
    assert_eq!(first.to_rfc3339(), "-262143-01-01T00:00:00+00:00");
    assert_eq!(last.to_rfc3339(), "+262142-12-31T23:59:59.999999999+00:00");
    assert!(!UtcInstant { secs: FIRST_SECOND - 1, nanos: 0 }.is_valid());
    assert!(!UtcInstant { secs: LAST_SECOND + 1, nanos: 0 }.is_valid());
    assert!(!UtcInstant { secs: 0, nanos: 1_000_000_000 }.is_valid());
    let hours = (LAST_SECOND - FIRST_SECOND) / 3600;
    assert!(first.can_add_hours(hours));
    assert!(!first.can_add_hours(hours + 1));
    assert_eq!(first.plus_hours(hours).to_rfc3339(), "+262142-12-31T23:00:00+00:00");
    assert!(chrono::DateTime::<chrono::Utc>::from_timestamp(FIRST_SECOND - 1, 0).is_none());
    assert!(chrono::DateTime::<chrono::Utc>::from_timestamp(LAST_SECOND + 1, 0).is_none());
}

#[test]
fn the_tray_is_red_when_something_is_wrong() {
    assert!(matches!(tray_icon(false), TrayIcon::Normal));
    match tray_icon(true) {
        TrayIcon::Picture { rgba, width, height } => {
            assert_eq!((width, height), (16, 16));
            assert_eq!(rgba, vec![255, 0, 0, 255].repeat(16 * 16));
        }
        TrayIcon::Normal => panic!("no picture"),
    }
}

#[test]
fn clicks() {
    match menu_action("show") {
        DesktopAction::OpenView(view) => assert_eq!(view, "settings-view"),
        _ => panic!("no view"),
    }
    assert!(matches!(menu_action("quit"), DesktopAction::Quit));
    assert!(matches!(menu_action("other"), DesktopAction::Nothing));
    match click_action(true, true) {
        DesktopAction::OpenView(view) => assert_eq!(view, "alerts-view"),
        _ => panic!("no view"),
    }
    assert!(matches!(click_action(true, false), DesktopAction::Nothing));
    assert!(matches!(click_action(false, true), DesktopAction::Nothing));
    assert_eq!(open_dir_error("gone"), "Failed to open config directory: gone");
}

#[test]
fn of_two_polls_under_one_url_the_last_counts() {
    let mut s = state();
    let polls = vec![
        poll("http://a", Err("first")),
        poll("http://a", Err("second")),
        poll("http://a", Ok(vec![alert("h", "HB", "x")])),
    ];
    assert_eq!(short(&s.apply_polls(&polls, "HB", NOW)), vec!["T+"]);
    assert_eq!(s.connection_errors.get("http://a").map(|m| m.as_str()), Some("second"));
    let status = s.server_statuses.get("http://a").expect("a status");
    assert!(status.reachable && status.connected);
    assert_eq!(status.last_error, None);
    assert!(!s.all_down_notified);
}

#[test]
fn with_a_blank_heartbeat_name_every_firing_alert_is_listed() {
    let mut s = state();
    let polls = vec![poll("http://a", Ok(vec![alert("h", "AlwaysFiringTest", "x")]))];
    assert_eq!(short(&s.apply_polls(&polls, "  ", NOW)), vec!["T-", "[X] AlwaysFiringTest"]);
    let status = s.server_statuses.get("http://a").expect("a status");
    assert!(status.connected && !status.heartbeat_ok);
    assert_eq!(status.last_heartbeat_at, None);
}

#[test]
fn a_listed_alert_that_becomes_the_heartbeat_is_resolved() {
    let mut s = state();
    let polls = vec![poll("http://a", Ok(vec![alert("h", "Probe", "x")]))];
    assert_eq!(short(&s.apply_polls(&polls, "", NOW)), vec!["T-", "[X] Probe"]);
    assert_eq!(short(&s.apply_polls(&polls, "Probe", NOW)), vec!["T-", "[RESOLVED] Probe"]);
    assert!(s.active_alerts.is_empty());
}

#[test]
fn a_round_goes_by_the_configuration_on_disk() {
    let mut s = state();
    s.apply_polls(&vec![poll("http://a", Ok(vec![alert("f", "Disk", "x")]))], "", NOW);
    let found = AppConfig {
        servers: Vec::new(),
        polling_interval_secs: 7,
        heartbeat_alert_name: "Probe".to_string(),
        legacy_urls: vec!["http://b".to_string()],
        legacy_token: "tok".to_string(),
    };
    let plan = s.begin_cycle(Some(found));
    assert_eq!(plan.servers.len(), 1);
    assert_eq!(plan.servers[0].url, "http://b");
    assert_eq!(plan.servers[0].token, "tok");
    assert_eq!(plan.heartbeat_alert_name, "Probe");
    assert_eq!(plan.interval_secs, 7);
    assert_eq!(s.config.polling_interval_secs, 7);
    assert!(s.config.legacy_urls.is_empty());
    assert_eq!(s.active_alerts.len(), 1);
    assert!(s.notified_fingerprints.contains("f"));
    // Without a readable file the next round goes by the same configuration.
    let next = s.begin_cycle(None);
    assert_eq!(next.servers[0].url, "http://b");
    assert_eq!(next.heartbeat_alert_name, "Probe");
    assert_eq!(next.interval_secs, 7);
    let polls = vec![poll("http://b", Ok(vec![]))];
    s.apply_polls(&polls, &next.heartbeat_alert_name, NOW);
    assert!(s.server_statuses.get("http://b").is_some());
    assert!(s.server_statuses.get("http://a").is_none());
}

#[test]
fn a_repeated_cycle_only_shows_the_tray() {
    let mut s = state();
    let polls = || {
        vec![
            poll("http://a", Ok(vec![alert("f", "Disk", "x"), alert("g", "Gpu", "x")])),
            poll("http://b", Err("no")),
        ]
    };
    assert_eq!(short(&s.apply_polls(&polls(), "HB", "one")), vec!["T+", "[X] Disk", "[X] Gpu"]);
    assert_eq!(short(&s.apply_polls(&polls(), "HB", "two")), vec!["T+"]);
    assert_eq!(s.active_alerts.len(), 2);
    assert_eq!(s.connection_errors.get("http://b").map(|m| m.as_str()), Some("no"));
    assert!(s.notified_fingerprints.contains("f") && s.notified_fingerprints.contains("g"));
    assert!(!s.all_down_notified);
    assert_eq!(s.server_statuses.get("http://a").map(|t| t.checked_at.as_str()), Some("two"));
}

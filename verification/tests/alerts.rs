use grafana_notify::alert::{
    alert_from_json, alerts_contain_firing_heartbeat, alerts_from_json, is_heartbeat_alert,
    parse_alerts_lenient, skipped_elements, skipped_in_json, Alert, AlertStatus, AlertsError,
};
use grafana_notify::json::Json;
use grafana_notify::poll::is_connected;
use grafana_notify::string_map::StringMap;

fn alert_with(alertname: &str, state: &str) -> Alert {
    let mut labels = StringMap::new();
    labels.insert("alertname".to_string(), alertname.to_string());
    Alert {
        fingerprint: format!("{}-{}", alertname, state),
        status: AlertStatus { state: state.to_string() },
        labels,
        annotations: StringMap::new(),
        starts_at: "2024-01-01T00:00:00Z".to_string(),
        generator_url: None,
        source_url: None,
    }
}

#[test]
fn heartbeat_detected_when_firing_and_named_match() {
    let alerts = vec![
        alert_with("SomeOtherAlert", "active"),
        alert_with("AlwaysFiringTest", "active"),
    ];
    assert!(alerts_contain_firing_heartbeat(&alerts, "AlwaysFiringTest"));
}

#[test]
fn heartbeat_not_detected_when_absent() {
    let alerts = vec![alert_with("SomeOtherAlert", "active")];
    assert!(!alerts_contain_firing_heartbeat(&alerts, "AlwaysFiringTest"));
}

#[test]
fn heartbeat_not_detected_when_resolved() {
    // A silenced test alert does not count as a live connection check.
    let alerts = vec![alert_with("AlwaysFiringTest", "suppressed")];
    assert!(!alerts_contain_firing_heartbeat(&alerts, "AlwaysFiringTest"));
}

#[test]
fn heartbeat_check_is_disabled_by_empty_name() {
    // Without a heartbeat name reaching the server is enough.
    let heartbeat_alert_name = "";
    let reachable = true;
    let heartbeat_seen = false;
    let connected = is_connected(reachable, heartbeat_seen, heartbeat_alert_name);
    assert!(connected);
}

#[test]
fn heartbeat_alert_is_identified_for_exclusion() {
    let heartbeat = alert_with("AlwaysFiringTest", "active");
    assert!(is_heartbeat_alert(&heartbeat, "AlwaysFiringTest"));
}

#[test]
fn non_heartbeat_alert_is_not_excluded() {
    let real = alert_with("InstanceDown", "active");
    assert!(!is_heartbeat_alert(&real, "AlwaysFiringTest"));
}

#[test]
fn nothing_is_excluded_when_heartbeat_name_is_empty() {
    // With the heartbeat switched off, no alert is a probe.
    let probe = alert_with("AlwaysFiringTest", "active");
    assert!(!is_heartbeat_alert(&probe, ""));
}

#[test]
fn lenient_parse_keeps_valid_alerts_when_one_is_malformed() {
    // The heartbeat is well-formed; its sibling carries a label value that is
    // no string.
    let body = r#"[
            {
                "fingerprint": "good",
                "status": {"state": "active"},
                "labels": {"alertname": "AlwaysFiringTest", "severity": "warning"},
                "annotations": {"summary": "ok"},
                "startsAt": "2024-01-01T00:00:00Z"
            },
            {
                "fingerprint": "bad",
                "status": {"state": "active"},
                "labels": {"alertname": "Weird", "port": 9093},
                "annotations": {},
                "startsAt": "2024-01-01T00:00:00Z"
            }
        ]"#;
    let alerts = parse_alerts_lenient(body).expect("array should parse");
    assert_eq!(alerts.len(), 1);
    assert!(alerts_contain_firing_heartbeat(&alerts, "AlwaysFiringTest"));
}

#[test]
fn lenient_parse_tolerates_missing_annotations() {
    // An alert without annotations is still an alert.
    let body = r#"[
            {
                "fingerprint": "noann",
                "status": {"state": "active"},
                "labels": {"alertname": "AlwaysFiringTest"},
                "startsAt": "2024-01-01T00:00:00Z"
            }
        ]"#;
    let alerts = parse_alerts_lenient(body).expect("array should parse");
    assert_eq!(alerts.len(), 1);
    assert!(alerts[0].annotations.is_empty());
    assert!(alerts_contain_firing_heartbeat(&alerts, "AlwaysFiringTest"));
}

#[test]
fn lenient_parse_errors_only_when_not_an_array() {
    // A body that is no array is a genuine protocol error.
    assert!(parse_alerts_lenient("{\"not\":\"an array\"}").is_err());
}

#[test]
fn reachable_without_heartbeat_is_not_connected_when_required() {
    let heartbeat_alert_name = "AlwaysFiringTest";
    let reachable = true;
    let heartbeat_seen = false;
    let connected = is_connected(reachable, heartbeat_seen, heartbeat_alert_name);
    assert!(!connected);
}

#[test]
fn unreachable_server_is_never_connected() {
    assert!(!is_connected(false, true, "AlwaysFiringTest"));
    assert!(!is_connected(false, false, ""));
    assert!(is_connected(true, true, "AlwaysFiringTest"));
}

#[test]
fn parse_errors_tell_invalid_json_from_other_json() {
    assert_eq!(parse_alerts_lenient("[").err(), Some(AlertsError::InvalidJson));
    assert_eq!(parse_alerts_lenient("").err(), Some(AlertsError::InvalidJson));
    assert_eq!(parse_alerts_lenient("null").err(), Some(AlertsError::NotAnArray));
    assert_eq!(parse_alerts_lenient("{}").err(), Some(AlertsError::NotAnArray));
    assert_eq!(parse_alerts_lenient(" [ ] ").expect("an array").len(), 0);
}

#[test]
fn every_field_is_read() {
    let body = r#"[{
        "fingerprint": "f1",
        "status": {"state": "active", "silencedBy": []},
        "labels": {"alertname": "Disk", "severity": "critical"},
        "annotations": {"summary": "full é"},
        "startsAt": "2024-01-01T00:00:00Z",
        "endsAt": "2024-01-02T00:00:00Z",
        "generatorURL": "http://g",
        "sourceURL": "http://s",
        "receivers": [{"name": "x", "deep": [1, 2.5, true, null]}]
    }]"#;
    let alerts = parse_alerts_lenient(body).expect("an array");
    assert_eq!(alerts.len(), 1);
    let a = &alerts[0];
    assert_eq!(a.fingerprint, "f1");
    assert_eq!(a.status.state, "active");
    assert_eq!(a.labels.get("alertname").map(|s| s.as_str()), Some("Disk"));
    assert_eq!(a.labels.get("severity").map(|s| s.as_str()), Some("critical"));
    assert_eq!(a.labels.entries().len(), 2);
    assert_eq!(a.annotations.get("summary").map(|s| s.as_str()), Some("full é"));
    assert_eq!(a.starts_at, "2024-01-01T00:00:00Z");
    assert_eq!(a.generator_url.as_deref(), Some("http://g"));
    assert_eq!(a.source_url.as_deref(), Some("http://s"));
}

#[test]
fn only_fingerprint_and_start_are_needed() {
    let alerts = parse_alerts_lenient(r#"[{"fingerprint":"f","startsAt":"t"}]"#).expect("an array");
    assert_eq!(alerts.len(), 1);
    assert_eq!(alerts[0].status.state, "");
    assert!(alerts[0].labels.is_empty());
    assert!(alerts[0].annotations.is_empty());
    assert_eq!(alerts[0].generator_url, None);
    assert_eq!(alerts[0].source_url, None);
    let none = [
        r#"[{"startsAt":"t"}]"#,
        r#"[{"fingerprint":"f"}]"#,
        r#"[{"fingerprint":1,"startsAt":"t"}]"#,
        r#"[{"fingerprint":"f","startsAt":null}]"#,
        r#"[{"fingerprint":"f","startsAt":"t","status":null}]"#,
        r#"[{"fingerprint":"f","startsAt":"t","status":{"state":7}}]"#,
        r#"[{"fingerprint":"f","startsAt":"t","labels":[]}]"#,
        r#"[{"fingerprint":"f","startsAt":"t","annotations":{"a":null}}]"#,
        r#"[{"fingerprint":"f","startsAt":"t","generatorURL":3}]"#,
        r#"["f"]"#,
        r#"[7]"#,
        r#"[null]"#,
    ];
    for body in none {
        assert_eq!(parse_alerts_lenient(body).expect("an array").len(), 0, "{}", body);
    }
    let one = [
        r#"[{"fingerprint":"f","startsAt":"t","generatorURL":null,"sourceURL":null}]"#,
        r#"[{"fingerprint":"f","startsAt":"t","status":{}}]"#,
        r#"[{"fingerprint":"f","startsAt":"t","status":[]}]"#,
        r#"[{"fingerprint":"f","startsAt":"t","status":["active"]}]"#,
    ];
    for body in one {
        assert_eq!(parse_alerts_lenient(body).expect("an array").len(), 1, "{}", body);
    }
}

#[test]
fn an_array_gives_the_fields_by_position() {
    let full = r#"[["f",{"state":"active"},{"alertname":"A"},{},"t","http://g","http://s"]]"#;
    let alerts = parse_alerts_lenient(full).expect("an array");
    assert_eq!(alerts.len(), 1);
    assert_eq!(alerts[0].fingerprint, "f");
    assert_eq!(alerts[0].status.state, "active");
    assert_eq!(alerts[0].labels.get("alertname").map(|s| s.as_str()), Some("A"));
    assert_eq!(alerts[0].starts_at, "t");
    assert_eq!(alerts[0].generator_url.as_deref(), Some("http://g"));
    assert_eq!(alerts[0].source_url.as_deref(), Some("http://s"));
    let short = r#"[["f",{},{},{},"t",null]]"#;
    assert_eq!(parse_alerts_lenient(short).expect("an array").len(), 1);
    let too_short = r#"[["f",{},{},{},"t"]]"#;
    assert_eq!(parse_alerts_lenient(too_short).expect("an array").len(), 0);
    let too_long = r#"[["f",{},{},{},"t",null,null,null]]"#;
    assert_eq!(parse_alerts_lenient(too_long).expect("an array").len(), 0);
}

#[test]
fn a_repeated_member_of_an_alert_is_refused() {
    let member = |name: &str, value: &str| (name.to_string(), Json::Text(value.to_string()));
    let good = Json::Object(vec![member("fingerprint", "f"), member("startsAt", "t")]);
    assert!(alert_from_json(&good).is_some());
    let bad = Json::Object(vec![
        member("fingerprint", "f"),
        member("startsAt", "t"),
        member("fingerprint", "g"),
    ]);
    assert!(alert_from_json(&bad).is_none());
    let repeated_label = Json::Object(vec![
        member("fingerprint", "f"),
        member("startsAt", "t"),
        ("labels".to_string(), Json::Object(vec![member("a", "1"), member("a", "2")])),
    ]);
    let alert = alert_from_json(&repeated_label).expect("an alert");
    assert_eq!(alert.labels.get("a").map(|s| s.as_str()), Some("2"));
}

#[test]
fn bad_elements_take_nothing_from_those_around_them() {
    let body = r#"[7,{"fingerprint":"a","startsAt":"t"},null,{"fingerprint":"b","startsAt":"t"},{}]"#;
    let alerts = parse_alerts_lenient(body).expect("an array");
    let names: Vec<&str> = alerts.iter().map(|a| a.fingerprint.as_str()).collect();
    assert_eq!(names, vec!["a", "b"]);
    assert_eq!(skipped_elements(body), vec![0, 2, 4]);
}

#[test]
fn alerts_are_read_from_json_values() {
    let alert = Json::Object(vec![
        ("fingerprint".to_string(), Json::Text("f".to_string())),
        ("startsAt".to_string(), Json::Text("t".to_string())),
    ]);
    let list = Json::Array(vec![Json::Bool(true), alert, Json::Number("1".to_string())]);
    let alerts = alerts_from_json(&list).expect("an array");
    assert_eq!(alerts.len(), 1);
    assert_eq!(skipped_in_json(&list), vec![0, 2]);
    assert_eq!(alerts_from_json(&Json::Null).err(), Some(AlertsError::NotAnArray));
    assert!(skipped_in_json(&Json::Null).is_empty());
}

#[test]
fn a_clone_keeps_every_field() {
    let mut alert = alert_with("A", "active");
    alert.annotations.insert("summary".to_string(), "s".to_string());
    alert.generator_url = Some("g".to_string());
    let copy = alert.clone();
    assert_eq!(copy.fingerprint, "A-active");
    assert_eq!(copy.status.state, "active");
    assert_eq!(copy.labels.get("alertname").map(|s| s.as_str()), Some("A"));
    assert_eq!(copy.annotations.get("summary").map(|s| s.as_str()), Some("s"));
    assert_eq!(copy.starts_at, "2024-01-01T00:00:00Z");
    assert_eq!(copy.generator_url.as_deref(), Some("g"));
    assert_eq!(copy.source_url, None);
    assert_eq!(AlertStatus::default().state, "");
}

#[test]
fn nothing_is_skipped_in_a_body_without_elements() {
    assert!(skipped_elements("[]").is_empty());
    assert!(skipped_elements("{}").is_empty());
    assert!(skipped_elements("[7").is_empty());
    assert!(skipped_elements(r#"[{"fingerprint":"a","startsAt":"t"}]"#).is_empty());
    assert_eq!(skipped_elements("[7]"), vec![0]);
}

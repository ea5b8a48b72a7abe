//! What the user is notified of, in words.

use vstd::prelude::*;
use crate::alert::Alert;
#[allow(unused_imports)]
use crate::alert::AlertView;
use crate::string_map::StringMap;
use crate::text::join;

verus! {

/// A desktop notification.
#[derive(Debug)]
pub struct Notification {
    pub title: String,
    pub body: String,
}

/// What a [`Notification`] stands for.
#[verifier::ext_equal]
pub struct NotificationView {
    pub title: Seq<char>,
    pub body: Seq<char>,
}

impl View for Notification {
    type V = NotificationView;

    open spec fn view(&self) -> NotificationView {
        NotificationView { title: self.title@, body: self.body@ }
    }
}

/// What `str::to_uppercase` makes of a text.
pub uninterp spec fn uppercase_text(s: Seq<char>) -> Seq<char>;

/// The text in upper case, by `str::to_uppercase`. It depends on the text
/// alone: it is [`uppercase_text`] of it.
#[verifier::external_body]
fn to_uppercase(s: &str) -> (r: String)
    ensures
        r@ == uppercase_text(s@),
{
    s.to_uppercase()
}

/// The value under `key`, or `default` where there is none.
pub open spec fn value_or(
    map: Map<Seq<char>, Seq<char>>,
    key: Seq<char>,
    default: Seq<char>,
) -> Seq<char> {
    if map.contains_key(key) {
        map[key]
    } else {
        default
    }
}

/// Looks `key` up, with a default.
fn get_or<'a>(map: &'a StringMap<String>, key: &str, default: &'a str) -> (r: &'a str)
    ensures
        r@ == value_or(map@, key@, default@),
{
    match map.get(key) {
        Some(value) => value.as_str(),
        None => default,
    }
}

/// The name that an alert is shown under.
pub open spec fn shown_name(alert: AlertView) -> Seq<char> {
    value_or(alert.labels, "alertname"@, "Unknown Alert"@)
}

/// The severity that an alert is shown with.
pub open spec fn shown_severity(alert: AlertView) -> Seq<char> {
    value_or(alert.labels, "severity"@, "warning"@)
}

/// The text that an alert is shown with: its summary, or else its description.
pub open spec fn shown_text(alert: AlertView) -> Seq<char> {
    value_or(
        alert.annotations,
        "summary"@,
        value_or(alert.annotations, "description"@, "No description provided."@),
    )
}

/// The notification of an alert that fires, given its severity in upper case.
pub open spec fn labelled_notification_view(
    alert: AlertView,
    severity: Seq<char>,
) -> NotificationView {
    NotificationView {
        title: "["@ + severity + "] "@ + shown_name(alert),
        body: shown_text(alert),
    }
}

/// The notification of an alert that fires.
pub open spec fn firing_notification_view(alert: AlertView) -> NotificationView {
    labelled_notification_view(alert, uppercase_text(shown_severity(alert)))
}

/// The notification of an alert that fires no longer.
pub open spec fn resolved_notification_view(alert: AlertView) -> NotificationView {
    NotificationView {
        title: "[RESOLVED] "@ + shown_name(alert),
        body: "The alert is no longer firing."@,
    }
}

/// The notification that no server could be reached.
pub open spec fn connection_lost_view() -> NotificationView {
    NotificationView {
        title: "[CRITICAL] Connection Lost"@,
        body: "Failed to connect to all registered Grafana instances."@,
    }
}

/// The notification that some server could be reached again.
pub open spec fn connection_restored_view() -> NotificationView {
    NotificationView {
        title: "[RECOVERED] Connection Restored"@,
        body: "Successfully reconnected to Grafana."@,
    }
}

/// Words the notification of a firing alert, given its severity in upper case.
pub fn labelled_notification(alert: &Alert, severity: &str) -> (r: Notification)
    ensures
        r@ == labelled_notification_view(alert@, severity@),
        alert.annotations@.contains_key("summary"@) ==> r.body@ == alert.annotations@["summary"@],
        !alert.annotations@.contains_key("summary"@) && alert.annotations@.contains_key(
            "description"@,
        ) ==> r.body@ == alert.annotations@["description"@],
{
    let name = get_or(&alert.labels, "alertname", "Unknown Alert");
    let text = get_or(
        &alert.annotations,
        "summary",
        get_or(&alert.annotations, "description", "No description provided."),
    );
    Notification { title: join("[", severity).concat("] ").concat(name), body: text.to_owned() }
}

/// Words the notification of a firing alert.
pub fn firing_notification(alert: &Alert) -> (r: Notification)
    ensures
        r@ == firing_notification_view(alert@),
{
    let severity = to_uppercase(get_or(&alert.labels, "severity", "warning"));
    labelled_notification(alert, severity.as_str())
}

/// Words the notification of an alert that fires no longer.
pub fn resolved_notification(alert: &Alert) -> (r: Notification)
    ensures
        r@ == resolved_notification_view(alert@),
{
    Notification {
        title: join("[RESOLVED] ", get_or(&alert.labels, "alertname", "Unknown Alert")),
        body: "The alert is no longer firing.".to_owned(),
    }
}

/// Words the notification that no server could be reached.
pub fn connection_lost() -> (r: Notification)
    ensures
        r@ == connection_lost_view(),
{
    Notification {
        title: "[CRITICAL] Connection Lost".to_owned(),
        body: "Failed to connect to all registered Grafana instances.".to_owned(),
    }
}

/// Words the notification that some server could be reached again.
pub fn connection_restored() -> (r: Notification)
    ensures
        r@ == connection_restored_view(),
{
    Notification {
        title: "[RECOVERED] Connection Restored".to_owned(),
        body: "Successfully reconnected to Grafana.".to_owned(),
    }
}

} // verus!

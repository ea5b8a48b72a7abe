//! What the types stand for: every field is seen as it is, and every item of a
//! list in its place.

use vstd::prelude::*;
#[allow(unused_imports)]
use crate::alert::{Alert, AlertView, alert_views, optional_text, places};
#[allow(unused_imports)]
use crate::config::{
    AppConfig,
    ConfigFile,
    GrafanaServer,
    default_config,
    loaded_view,
    refreshed,
    server_views,
    startup_view,
    string_views,
};
#[allow(unused_imports)]
use crate::endpoint::{HttpRequest, request_views};
#[allow(unused_imports)]
use crate::json::{Json, JsonView};
#[allow(unused_imports)]
use crate::notification::Notification;
#[allow(unused_imports)]
use crate::poll::{Cycle, ServerPoll, ServerStatus, poll_views};
#[allow(unused_imports)]
use crate::state::{Action, ActionView, AppState, CyclePlan, action_views};
#[allow(unused_imports)]
use crate::string_map::{distinct_keys, entries_map};

verus! {

/// An optional text is seen as there or not, as it is.
pub open spec fn same_optional(seen: Option<Seq<char>>, text: Option<String>) -> bool {
    match (seen, text) {
        (Some(s), Some(t)) => s == t@,
        (None, None) => true,
        _ => false,
    }
}

/// Every field of an alert is seen.
pub proof fn law_alert_seen(alert: Alert, alerts: Seq<Alert>, i: int)
    ensures
        alert@.fingerprint == alert.fingerprint@,
        alert@.state == alert.status.state@,
        alert@.labels == alert.labels@,
        alert@.annotations == alert.annotations@,
        alert@.starts_at == alert.starts_at@,
        same_optional(alert@.generator_url, alert.generator_url),
        same_optional(alert@.source_url, alert.source_url),
        alert_views(alerts).len() == alerts.len(),
        0 <= i < alerts.len() ==> alert_views(alerts)[i] == alerts[i]@,
{
}

/// An optional text is seen as it is.
pub proof fn law_optional_seen(text: Option<String>)
    ensures
        same_optional(optional_text(text), text),
{
}

/// The numbers of a list are seen in their places.
pub proof fn law_places_seen(numbers: Seq<usize>, i: int)
    ensures
        places(numbers).len() == numbers.len(),
        0 <= i < numbers.len() ==> places(numbers)[i] == numbers[i],
{
}

/// Every field of a server and of the configuration is seen.
pub proof fn law_config_seen(
    server: GrafanaServer,
    servers: Seq<GrafanaServer>,
    texts: Seq<String>,
    config: AppConfig,
    i: int,
)
    ensures
        server@.url == server.url@,
        server@.token == server.token@,
        server_views(servers).len() == servers.len(),
        0 <= i < servers.len() ==> server_views(servers)[i] == servers[i]@,
        string_views(texts).len() == texts.len(),
        0 <= i < texts.len() ==> string_views(texts)[i] == texts[i]@,
        config@.servers == server_views(config.servers@),
        config@.polling_interval_secs == config.polling_interval_secs,
        config@.heartbeat_alert_name == config.heartbeat_alert_name@,
        config@.legacy_urls == string_views(config.legacy_urls@),
        config@.legacy_token == config.legacy_token@,
{
}

/// A configuration that was read is taken over at startup as it is during
/// operation. Without one the defaults apply: one server on this machine,
/// without a token, polled every minute.
pub proof fn law_startup(found: ConfigFile, loaded: Option<AppConfig>)
    ensures
        loaded is None <==> loaded_view(loaded) is None,
        loaded matches Some(config) ==> loaded_view(loaded) == Some(config@),
        found matches ConfigFile::Parsed(config) ==> startup_view(found) == refreshed(
            config@,
            Some(config@),
        ),
        !(found is Parsed) ==> {
            let config = startup_view(found);
            &&& config.servers.len() == 1
            &&& config.servers[0].url == "http://localhost:3000"@
            &&& config.servers[0].token.len() == 0
            &&& config.polling_interval_secs == 60
            &&& config.heartbeat_alert_name == "AlwaysFiringTest"@
            &&& config.legacy_urls.len() == 0
            &&& config.legacy_token.len() == 0
        },
        startup_view(ConfigFile::Missing) == default_config(),
{
}

/// Every field of a request is seen.
pub proof fn law_request_seen(request: HttpRequest, requests: Seq<HttpRequest>, i: int)
    ensures
        request@.url == request.url@,
        same_optional(request@.bearer, request.bearer),
        request_views(requests).len() == requests.len(),
        0 <= i < requests.len() ==> request_views(requests)[i] == requests[i]@,
{
}

/// Every JSON value is seen as what it is, down to its items and members.
pub proof fn law_json_seen(json: Json)
    ensures
        match json {
            Json::Null => json@ == JsonView::Null,
            Json::Bool(b) => json@ == JsonView::Bool(b),
            Json::Number(n) => json@ == JsonView::Number(n@),
            Json::Text(t) => json@ == JsonView::Text(t@),
            Json::Array(items) => json@ is Array && json@->Array_0.len() == items@.len() && forall|
                i: int,
            |
                0 <= i < items@.len() ==> #[trigger] json@->Array_0[i] == items@[i]@,
            Json::Object(members) => json@ is Object && json@->Object_0.len() == members@.len()
                && forall|i: int|
                0 <= i < members@.len() ==> (#[trigger] json@->Object_0[i]).0 == members@[i].0@
                    && json@->Object_0[i].1 == members@[i].1@,
        },
{
}

/// Every field of a notification and of an action is seen.
pub proof fn law_action_seen(
    notification: Notification,
    action: Action,
    actions: Seq<Action>,
    i: int,
)
    ensures
        notification@.title == notification.title@,
        notification@.body == notification.body@,
        match action {
            Action::Notify(n) => action@ == ActionView::Notify(n@),
            Action::ShowTray { has_error } => action@ == (ActionView::ShowTray { has_error }),
        },
        action_views(actions).len() == actions.len(),
        0 <= i < actions.len() ==> action_views(actions)[i] == actions[i]@,
{
}

/// Every field of a server's status is seen.
pub proof fn law_status_seen(status: ServerStatus)
    ensures
        status@.url == status.url@,
        status@.reachable == status.reachable,
        status@.heartbeat_ok == status.heartbeat_ok,
        status@.connected == status.connected,
        same_optional(status@.last_heartbeat_at, status.last_heartbeat_at),
        same_optional(status@.last_error, status.last_error),
        status@.checked_at == status.checked_at@,
{
}

/// A poll is seen with the server's URL and with its outcome as it is.
pub proof fn law_poll_seen(poll: ServerPoll, polls: Seq<ServerPoll>, i: int)
    ensures
        poll@.url == poll.server.url@,
        match poll.outcome {
            None => poll@.outcome is None,
            Some(Ok(alerts)) => poll@.outcome == Some(
                Ok::<Seq<AlertView>, Seq<char>>(alert_views(alerts@)),
            ),
            Some(Err(message)) => poll@.outcome == Some(
                Err::<Seq<AlertView>, Seq<char>>(message@),
            ),
        },
        poll_views(polls).len() == polls.len(),
        0 <= i < polls.len() ==> poll_views(polls)[i] == polls[i]@,
{
}

/// What a cycle gathered is seen as it is.
pub proof fn law_cycle_seen(cycle: Cycle)
    ensures
        cycle@.alerts == alert_views(cycle.alerts@),
        cycle@.errors == cycle.errors@,
        cycle@.statuses == cycle.statuses@,
        cycle@.failed == cycle.failed,
{
}

/// Every field of the state, and of what a cycle goes by, is seen.
pub proof fn law_state_seen(state: AppState, plan: CyclePlan)
    ensures
        state@.config == state.config@,
        state@.notified_fingerprints == state.notified_fingerprints@,
        state@.active_alerts == alert_views(state.active_alerts@),
        state@.connection_errors == state.connection_errors@,
        state@.all_down_notified == state.all_down_notified,
        state@.server_statuses == state.server_statuses@,
        plan@.servers == server_views(plan.servers@),
        plan@.heartbeat_alert_name == plan.heartbeat_alert_name@,
        plan@.interval_secs == plan.interval_secs,
{
}

/// A list of entries holds under a key the value of the last entry with it, and
/// nothing under a key that no entry has.
pub proof fn law_entries_seen<T: View>(entries: Seq<(String, T)>, key: Seq<char>, i: int)
    ensures
        (forall|j: int| 0 <= j < entries.len() ==> (#[trigger] entries[j]).0@ != key)
            ==> !entries_map(entries).contains_key(key),
        0 <= i < entries.len() && entries[i].0@ == key && (forall|j: int|
            i < j < entries.len() ==> (#[trigger] entries[j]).0@ != key) ==> entries_map(
            entries,
        ).contains_key(key) && entries_map(entries)[key] == entries[i].1@,
    decreases entries.len(),
{
    if entries.len() > 0 {
        let front = entries.drop_last();
        let at = entries.len() - 1;
        law_entries_seen(front, key, i);
        assert(entries[at] == entries.last());
        assert forall|j: int| 0 <= j < front.len() implies #[trigger] front[j] == entries[j] by {}
    }
}

/// No two of the entries of a map have the same key.
pub proof fn law_keys_distinct<T>(entries: Seq<(String, T)>)
    ensures
        distinct_keys(entries) <==> forall|i: int, j: int|
            0 <= i < entries.len() && 0 <= j < entries.len() && i != j ==> (
            #[trigger] entries[i]).0@ != (#[trigger] entries[j]).0@,
{
    if distinct_keys(entries) {
        assert forall|i: int, j: int|
            0 <= i < entries.len() && 0 <= j < entries.len() && i != j implies (
        #[trigger] entries[i]).0@ != (#[trigger] entries[j]).0@ by {
            if j < i {
                assert(entries[j].0@ != entries[i].0@);
            }
        }
    }
}

} // verus!

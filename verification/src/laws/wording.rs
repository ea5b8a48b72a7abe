//! What requests, silences and notifications hold, field by field.

use vstd::prelude::*;
#[allow(unused_imports)]
use crate::alert::AlertView;
#[allow(unused_imports)]
use crate::clock::{UtcInstant, rfc3339_text};
#[allow(unused_imports)]
use crate::config::{AppConfigView, GrafanaServerView, refreshed, updated};
#[allow(unused_imports)]
use crate::endpoint::{endpoint, poll_request_view, silence_requests_view};
#[allow(unused_imports)]
use crate::notification::{
    firing_notification_view,
    labelled_notification_view,
    resolved_notification_view,
    uppercase_text,
};
#[allow(unused_imports)]
use crate::silence::{SilencePayload, signed_hours, silences};
#[allow(unused_imports)]
use crate::text::{blank, whitespace, without_trailing_slashes};

verus! {

// ---- Text ----

/// Some character of the URL is not a slash.
pub open spec fn has_address(url: Seq<char>) -> bool {
    exists|i: int| 0 <= i < url.len() && #[trigger] url[i] != '/'
}

/// Some character of the text is not whitespace.
pub open spec fn has_ink(text: Seq<char>) -> bool {
    exists|i: int| 0 <= i < text.len() && !whitespace(#[trigger] text[i])
}

/// `base` is the URL but for slashes at its end, and does not end in one.
pub open spec fn is_base(base: Seq<char>, url: Seq<char>) -> bool {
    &&& base.len() <= url.len()
    &&& forall|i: int| 0 <= i < base.len() ==> #[trigger] base[i] == url[i]
    &&& forall|i: int| base.len() <= i < url.len() ==> #[trigger] url[i] == '/'
    &&& base.len() > 0 ==> base[base.len() - 1] != '/'
}

/// Trimming takes the slashes at the end of a URL and nothing else. Something
/// is left exactly if the URL has an address.
pub proof fn law_trimming(url: Seq<char>)
    ensures
        is_base(without_trailing_slashes(url), url),
        without_trailing_slashes(url).len() > 0 <==> has_address(url),
    decreases url.len(),
{
    if url.len() > 0 && url.last() == '/' {
        let front = url.drop_last();
        law_trimming(front);
        assert forall|i: int| without_trailing_slashes(url).len() <= i < url.len() implies
            #[trigger] url[i] == '/' by {
            if i < front.len() {
                assert(front[i] == '/');
            }
        }
        if has_address(url) {
            let i = choose|i: int| 0 <= i < url.len() && #[trigger] url[i] != '/';
            assert(front[i] != '/');
        }
        if has_address(front) {
            let i = choose|i: int| 0 <= i < front.len() && #[trigger] front[i] != '/';
            assert(url[i] != '/');
        }
    } else if url.len() > 0 {
        assert(url[url.len() - 1] != '/');
    }
}

/// There is one base of a URL, so that trimming gives every base there is.
pub proof fn law_one_base(base: Seq<char>, url: Seq<char>)
    requires
        is_base(base, url),
    ensures
        without_trailing_slashes(url) == base,
{
    law_trimming(url);
    let trimmed = without_trailing_slashes(url);
    if trimmed.len() < base.len() {
        assert(url[base.len() - 1] == '/');
        assert(base[base.len() - 1] == url[base.len() - 1]);
    } else if base.len() < trimmed.len() {
        assert(url[trimmed.len() - 1] == '/');
        assert(trimmed[trimmed.len() - 1] == url[trimmed.len() - 1]);
    }
    assert(trimmed =~= base);
}

/// A text is blank exactly if it has no character other than whitespace, and
/// of the ASCII characters six are whitespace.
pub proof fn law_blank_text(text: Seq<char>, c: char)
    ensures
        blank(text) <==> !has_ink(text),
        (c as u32) < 128 ==> (whitespace(c) <==> c == ' ' || c == '\t' || c == '\n' || c == '\r'
            || c == '\u{b}' || c == '\u{c}'),
{
}

// ---- Requests ----

/// The URL of a request is the server's URL without slashes at its end, the
/// prefix of the Alertmanager and the path.
pub proof fn law_endpoint_url(base: Seq<char>, url: Seq<char>, path: Seq<char>)
    requires
        is_base(base, url),
    ensures
        endpoint(url, path) == base + "/api/alertmanager/grafana"@ + path,
{
    law_one_base(base, url);
}

/// A server is polled exactly if it has an address, at its alerts, with its own
/// token unless that is blank.
pub proof fn law_poll_request(server: GrafanaServerView, base: Seq<char>)
    requires
        is_base(base, server.url),
    ensures
        poll_request_view(server) is Some <==> has_address(server.url),
        poll_request_view(server) matches Some(request) ==> {
            &&& request.url == base + "/api/alertmanager/grafana"@ + "/api/v2/alerts"@
            &&& has_ink(server.token) ==> request.bearer == Some(server.token)
            &&& !has_ink(server.token) ==> request.bearer is None
        },
{
    law_one_base(base, server.url);
    law_trimming(server.url);
    law_blank_text(server.token, ' ');
}

/// A server whose URL is not blank gets one request with a silence, with its
/// own token unless that is blank. Any other gets none.
pub proof fn law_silence_request(server: GrafanaServerView, base: Seq<char>)
    requires
        is_base(base, server.url),
    ensures
        !has_ink(server.url) ==> silence_requests_view(seq![server]).len() == 0,
        has_ink(server.url) ==> {
            let requests = silence_requests_view(seq![server]);
            &&& requests.len() == 1
            &&& requests[0].url == base + "/api/alertmanager/grafana"@ + "/api/v2/silences"@
            &&& has_ink(server.token) ==> requests[0].bearer == Some(server.token)
            &&& !has_ink(server.token) ==> requests[0].bearer is None
        },
{
    law_one_base(base, server.url);
    law_blank_text(server.url, ' ');
    law_blank_text(server.token, ' ');
    assert(seq![server].drop_last() =~= Seq::empty());
    assert(seq![server].last() == server);
    assert(silence_requests_view(Seq::empty()) =~= Seq::empty());
}

/// The requests for two lists of servers, one after the other, are those for
/// the first and then those for the second.
pub proof fn law_silence_requests_concat(a: Seq<GrafanaServerView>, b: Seq<GrafanaServerView>)
    ensures
        silence_requests_view(a + b) == silence_requests_view(a) + silence_requests_view(b),
    decreases b.len(),
{
    if b.len() == 0 {
        assert(a + b == a);
        assert(silence_requests_view(a) + silence_requests_view(b) =~= silence_requests_view(a));
    } else {
        law_silence_requests_concat(a, b.drop_last());
        assert((a + b).drop_last() == a + b.drop_last());
        assert((a + b).last() == b.last());
        assert(silence_requests_view(a + b) =~= silence_requests_view(a) + silence_requests_view(b));
    }
}

// ---- Silences ----

/// A duration within the signed numbers stands for as many hours, and one
/// beyond them for the number with the same bits.
pub proof fn law_hours(duration_hours: u64)
    ensures
        duration_hours <= i64::MAX ==> signed_hours(duration_hours) == duration_hours,
        duration_hours > i64::MAX ==> signed_hours(duration_hours) == duration_hours - u64::MAX - 1,
        i64::MIN <= signed_hours(duration_hours) <= i64::MAX,
{
}

/// A payload silences exactly the alerts of one name between two instants if it
/// holds one matcher, for that name and no pattern, and those two instants.
pub proof fn law_silence_says(
    payload: SilencePayload,
    alertname: Seq<char>,
    starts_at: Seq<char>,
    ends_at: Seq<char>,
)
    ensures
        silences(payload, alertname, starts_at, ends_at) <==> {
            &&& payload.matchers@.len() == 1
            &&& payload.matchers@[0].name@ == "alertname"@
            &&& payload.matchers@[0].value@ == alertname
            &&& payload.matchers@[0].is_equal
            &&& !payload.matchers@[0].is_regex
            &&& payload.starts_at@ == starts_at
            &&& payload.ends_at@ == ends_at
            &&& payload.created_by@ == "Notify App"@
            &&& payload.comment@ == "Silenced via Notify desktop app"@
        },
{
}

/// A silence starts now and ends 3600 seconds later for each hour asked for, to
/// the nanosecond. It is for the alerts whose name is exactly the given one.
pub proof fn law_silence_lasts(
    payload: SilencePayload,
    alertname: Seq<char>,
    now: UtcInstant,
    duration_hours: u64,
)
    requires
        duration_hours <= i64::MAX,
        silences(
            payload,
            alertname,
            rfc3339_text(now.secs, now.nanos),
            rfc3339_text((now.secs + 3600 * signed_hours(duration_hours)) as i64, now.nanos),
        ),
    ensures
        payload.starts_at@ == rfc3339_text(now.secs, now.nanos),
        payload.ends_at@ == rfc3339_text((now.secs + 3600 * duration_hours) as i64, now.nanos),
        payload.matchers@.len() == 1,
        payload.matchers@[0].name@ == "alertname"@,
        payload.matchers@[0].value@ == alertname,
        payload.matchers@[0].is_equal,
        !payload.matchers@[0].is_regex,
        payload.created_by@ == "Notify App"@,
        payload.comment@ == "Silenced via Notify desktop app"@,
{
    law_hours(duration_hours);
}

/// Hours can be added exactly while the result lies within the dates: those
/// from the start of the year -262143 to the end of the year 262142.
pub proof fn law_dates(instant: UtcInstant, hours: int)
    ensures
        instant.valid() <==> -8_334_601_228_800 <= instant.secs <= 8_210_266_876_799
            && instant.nanos < 1_000_000_000,
        instant.has_later(hours) <==> -8_334_601_228_800 <= instant.secs + 3600 * hours
            <= 8_210_266_876_799,
{
}

// ---- Notifications ----

/// The text under `key`, where there is one, and the other text otherwise.
pub open spec fn found_or(
    found: Seq<char>,
    map: Map<Seq<char>, Seq<char>>,
    key: Seq<char>,
    other: Seq<char>,
) -> bool {
    &&& map.contains_key(key) ==> found == map[key]
    &&& !map.contains_key(key) ==> found == other
}

/// The notification of a firing alert has its summary for a body, whatever the
/// other annotations, or else its description, and only with neither the text
/// that says so.
pub proof fn law_firing_body(alert: AlertView, severity: Seq<char>)
    ensures
        alert.annotations.contains_key("summary"@) ==> firing_notification_view(alert).body
            == alert.annotations["summary"@],
        !alert.annotations.contains_key("summary"@) && alert.annotations.contains_key(
            "description"@,
        ) ==> firing_notification_view(alert).body == alert.annotations["description"@],
        !alert.annotations.contains_key("summary"@) && !alert.annotations.contains_key(
            "description"@,
        ) ==> firing_notification_view(alert).body == "No description provided."@,
        labelled_notification_view(alert, severity).body == firing_notification_view(alert).body,
{
}

/// The notification of a firing alert has its severity in upper case for a
/// title, in brackets, and its name.
pub proof fn law_firing_title(
    alert: AlertView,
    name: Seq<char>,
    severity: Seq<char>,
    label: Seq<char>,
)
    requires
        found_or(name, alert.labels, "alertname"@, "Unknown Alert"@),
        found_or(severity, alert.labels, "severity"@, "warning"@),
    ensures
        firing_notification_view(alert).title == "["@ + uppercase_text(severity) + "] "@ + name,
        labelled_notification_view(alert, label).title == "["@ + label + "] "@ + name,
{
}

/// The notification of a resolved alert gives its name and says so.
pub proof fn law_resolved_words(alert: AlertView, name: Seq<char>)
    requires
        found_or(name, alert.labels, "alertname"@, "Unknown Alert"@),
    ensures
        resolved_notification_view(alert).title == "[RESOLVED] "@ + name,
        resolved_notification_view(alert).body == "The alert is no longer firing."@,
{
}

// ---- Configuration ----

/// Where no configuration can be read the last one stays. Where one can, it is
/// taken over with all its settings, and its servers are those it lists, or
/// else its legacy ones.
pub proof fn law_refresh(config: AppConfigView, found: AppConfigView, i: int)
    ensures
        refreshed(config, None) == config,
        ({
            let fresh = refreshed(config, Some(found));
            &&& fresh.polling_interval_secs == found.polling_interval_secs
            &&& fresh.heartbeat_alert_name == found.heartbeat_alert_name
            &&& fresh.legacy_urls.len() == 0
            &&& fresh.legacy_token.len() == 0
            &&& found.servers.len() > 0 ==> fresh.servers == found.servers
            &&& found.servers.len() == 0 ==> fresh.servers.len() == found.legacy_urls.len()
            &&& found.servers.len() == 0 && 0 <= i < found.legacy_urls.len()
                ==> fresh.servers[i].url == found.legacy_urls[i] && fresh.servers[i].token
                == found.legacy_token
        }),
{
}

/// What the user entered is in the configuration, and nothing else changes.
pub proof fn law_update(
    config: AppConfigView,
    servers: Seq<GrafanaServerView>,
    interval: u64,
    heartbeat_alert_name: Seq<char>,
)
    ensures
        ({
            let entered = updated(config, servers, interval, heartbeat_alert_name);
            &&& entered.servers == servers
            &&& entered.polling_interval_secs == interval
            &&& entered.heartbeat_alert_name == heartbeat_alert_name
            &&& entered.legacy_urls == config.legacy_urls
            &&& entered.legacy_token == config.legacy_token
        }),
{
}

} // verus!

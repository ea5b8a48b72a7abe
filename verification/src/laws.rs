//! What holds of the monitor as a whole.

pub mod merging;
pub mod notifying;
pub mod outcomes;
pub mod reading;
pub mod rounds;
pub mod servers;
pub mod views;
pub mod wording;

use vstd::prelude::*;
#[allow(unused_imports)]
use crate::alert::{
    AlertView,
    alert_field_names,
    alert_slots,
    lenient_alerts,
    member_slot,
    member_values,
    read_alert,
    skipped,
};
#[allow(unused_imports)]
use crate::config::{
    AppConfigView,
    GrafanaServerView,
    default_config,
    normalized,
    refreshed,
    updated,
};
#[allow(unused_imports)]
use crate::endpoint::{
    HttpRequestView,
    bearer_of,
    endpoint,
    poll_request_view,
    silence_requests_view,
};
#[allow(unused_imports)]
use crate::json::JsonView;
#[allow(unused_imports)]
use crate::poll::{ServerPollView, polled};
#[allow(unused_imports)]
use crate::text::{blank, without_trailing_slashes};

verus! {

// ---- Addresses ----

/// Slashes at the end of a server's URL make no difference to where requests
/// go.
pub proof fn law_trailing_slash_ignored(base: Seq<char>, path: Seq<char>)
    ensures
        endpoint(base.push('/'), path) == endpoint(base, path),
        endpoint(without_trailing_slashes(base), path) == endpoint(base, path),
{
    assert(base.push('/').drop_last() == base);
    lemma_trim_idempotent(base);
}

/// A server without an address gets no request, and the request to any other
/// goes to the address that its alerts are marked with.
pub proof fn law_request_matches_source(server: GrafanaServerView, poll: ServerPollView)
    requires
        poll.url == server.url,
    ensures
        poll_request_view(server) is None ==> !polled(poll),
        poll_request_view(server) matches Some(request) ==> request.url == endpoint(
            without_trailing_slashes(poll.url),
            "/api/v2/alerts"@,
        ),
{
    lemma_trim_idempotent(server.url);
}

/// The silence request to a server.
pub open spec fn silence_request_to(server: GrafanaServerView) -> HttpRequestView {
    HttpRequestView {
        url: endpoint(server.url, "/api/v2/silences"@),
        bearer: bearer_of(server.token),
    }
}

/// Every listed server with an address gets the silence, and each request to a
/// server carries the token of that server.
pub proof fn law_own_token(servers: Seq<GrafanaServerView>, i: int)
    requires
        0 <= i < servers.len(),
    ensures
        !blank(servers[i].url) ==> silence_requests_view(servers).contains(
            silence_request_to(servers[i]),
        ),
        poll_request_view(servers[i]) matches Some(request) ==> request.bearer == bearer_of(
            servers[i].token,
        ),
    decreases servers.len(),
{
    let front = silence_requests_view(servers.drop_last());
    if i == servers.len() - 1 {
        if !blank(servers[i].url) {
            assert(silence_requests_view(servers)[front.len() as int] == silence_request_to(
                servers[i],
            ));
        }
    } else {
        law_own_token(servers.drop_last(), i);
        if !blank(servers[i].url) {
            let k = choose|k: int| 0 <= k < front.len() && front[k] == silence_request_to(servers[i]);
            assert(silence_requests_view(servers)[k] == front[k]);
        }
    }
}

/// A silence goes to listed servers with an address, and to nobody else.
pub proof fn law_silence_only_to_listed(servers: Seq<GrafanaServerView>, k: int)
    requires
        0 <= k < silence_requests_view(servers).len(),
    ensures
        exists|i: int|
            0 <= i < servers.len() && !blank((#[trigger] servers[i]).url)
                && silence_requests_view(servers)[k] == silence_request_to(servers[i]),
    decreases servers.len(),
{
    let front = silence_requests_view(servers.drop_last());
    if k < front.len() {
        law_silence_only_to_listed(servers.drop_last(), k);
        let i = choose|i: int|
            0 <= i < servers.drop_last().len() && !blank((#[trigger] servers.drop_last()[i]).url)
                && front[k] == silence_request_to(servers.drop_last()[i]);
        assert(servers[i] == servers.drop_last()[i]);
    } else {
        assert(servers[servers.len() - 1] == servers.last());
    }
}

proof fn lemma_trim_idempotent(s: Seq<char>)
    ensures
        without_trailing_slashes(without_trailing_slashes(s)) == without_trailing_slashes(s),
        without_trailing_slashes(s).len() > 0 ==> without_trailing_slashes(s).last() != '/',
    decreases s.len(),
{
    if s.len() > 0 && s.last() == '/' {
        lemma_trim_idempotent(s.drop_last());
    }
}

// ---- Configuration ----

/// Normalizing a configuration twice is normalizing it once, and leaves no
/// legacy fields.
pub proof fn law_normalize_idempotent(config: AppConfigView)
    ensures
        normalized(normalized(config)) == normalized(config),
        normalized(config).legacy_urls.len() == 0,
        normalized(config).legacy_token.len() == 0,
{
    let once = normalized(config);
    assert(normalized(once).servers =~= once.servers);
}

/// Servers that are listed win over legacy fields, and a configuration without
/// legacy fields stays as it is.
pub proof fn law_listed_servers_kept(config: AppConfigView)
    ensures
        config.servers.len() > 0 ==> normalized(config).servers == config.servers,
        config.legacy_urls.len() == 0 && config.legacy_token.len() == 0 ==> normalized(config)
            == config,
        normalized(config).polling_interval_secs == config.polling_interval_secs,
        normalized(config).heartbeat_alert_name == config.heartbeat_alert_name,
{
    if config.legacy_urls.len() == 0 && config.legacy_token.len() == 0 {
        assert(normalized(config).servers =~= config.servers);
        assert(config.legacy_urls =~= Seq::empty());
        assert(config.legacy_token =~= Seq::empty());
    }
}

/// Where no servers are listed, each legacy URL becomes a server with the
/// legacy token.
pub proof fn law_legacy_migrated(config: AppConfigView)
    requires
        config.servers.len() == 0,
    ensures
        normalized(config).servers.len() == config.legacy_urls.len(),
        forall|i: int|
            0 <= i < config.legacy_urls.len() ==> #[trigger] normalized(config).servers[i] == (
            GrafanaServerView { url: config.legacy_urls[i], token: config.legacy_token }),
{
}

/// The configuration has no legacy fields.
pub open spec fn free_of_legacy(config: AppConfigView) -> bool {
    config.legacy_urls.len() == 0 && config.legacy_token.len() == 0
}

/// Once the monitor has started, its configuration never has legacy fields:
/// not the one it starts with, nor one that was refreshed or updated since.
pub proof fn law_no_legacy_in_use(
    config: AppConfigView,
    loaded: Option<AppConfigView>,
    servers: Seq<GrafanaServerView>,
    interval: u64,
    heartbeat_alert_name: Seq<char>,
)
    ensures
        free_of_legacy(default_config()),
        free_of_legacy(normalized(config)),
        free_of_legacy(config) ==> free_of_legacy(refreshed(config, loaded)),
        free_of_legacy(config) ==> free_of_legacy(
            updated(config, servers, interval, heartbeat_alert_name),
        ),
{
}

/// What the user entered is taken over from disk as it was entered, whatever
/// the configuration was meanwhile, and even where no servers are left.
pub proof fn law_update_survives_refresh(
    config: AppConfigView,
    servers: Seq<GrafanaServerView>,
    interval: u64,
    heartbeat_alert_name: Seq<char>,
    meanwhile: AppConfigView,
)
    requires
        free_of_legacy(config),
    ensures
        ({
            let entered = updated(config, servers, interval, heartbeat_alert_name);
            let read_back = refreshed(meanwhile, Some(entered));
            &&& read_back == entered
            &&& read_back.servers == servers
            &&& read_back.polling_interval_secs == interval
            &&& read_back.heartbeat_alert_name == heartbeat_alert_name
            &&& free_of_legacy(read_back)
        }),
{
    law_listed_servers_kept(updated(config, servers, interval, heartbeat_alert_name));
}

// ---- Reading replies ----

/// The alerts of two lists, one after the other, are the alerts of the first
/// and then those of the second.
pub proof fn law_lenient_concat(a: Seq<JsonView>, b: Seq<JsonView>)
    ensures
        lenient_alerts(a + b) == lenient_alerts(a) + lenient_alerts(b),
    decreases b.len(),
{
    if b.len() == 0 {
        assert(a + b == a);
        assert(lenient_alerts(a) + lenient_alerts(b) =~= lenient_alerts(a));
    } else {
        law_lenient_concat(a, b.drop_last());
        assert((a + b).drop_last() == a + b.drop_last());
        assert((a + b).last() == b.last());
        assert(lenient_alerts(a + b) =~= lenient_alerts(a) + lenient_alerts(b));
    }
}

/// A value that is no alert takes nothing away from the alerts around it.
pub proof fn law_bad_element_ignored(a: Seq<JsonView>, bad: JsonView, b: Seq<JsonView>)
    requires
        read_alert(bad) is None,
    ensures
        lenient_alerts(a + seq![bad] + b) == lenient_alerts(a + b),
{
    law_lenient_concat(a + seq![bad], b);
    law_lenient_concat(a, b);
    assert((a + seq![bad]).drop_last() == a);
}

/// An alert in a reply is found wherever it stands.
pub proof fn law_good_element_kept(items: Seq<JsonView>, i: int)
    requires
        0 <= i < items.len(),
        read_alert(items[i]) is Some,
    ensures
        lenient_alerts(items).contains(read_alert(items[i])->0),
    decreases items.len(),
{
    let front = lenient_alerts(items.drop_last());
    if i == items.len() - 1 {
        let alert = read_alert(items[i])->0;
        assert(lenient_alerts(items)[front.len() as int] == alert);
    } else {
        law_good_element_kept(items.drop_last(), i);
        let k = choose|k: int| 0 <= k < front.len() && front[k] == read_alert(items[i])->0;
        assert(lenient_alerts(items)[k] == front[k]);
    }
}

/// Every element of a reply gives an alert or is skipped, and those are skipped
/// that are no alerts.
pub proof fn law_skipped_or_read(items: Seq<JsonView>)
    ensures
        lenient_alerts(items).len() + skipped(items).len() == items.len(),
        forall|i: int|
            skipped(items).contains(i) <==> 0 <= i < items.len() && read_alert(
                #[trigger] items[i],
            ) is None,
    decreases items.len(),
{
    if items.len() > 0 {
        let rest = items.drop_last();
        let front = skipped(rest);
        let last = items.len() - 1;
        law_skipped_or_read(rest);
        assert forall|i: int|
            skipped(items).contains(i) <==> 0 <= i < items.len() && read_alert(
                #[trigger] items[i],
            ) is None by {
            assert(front.contains(i) <==> 0 <= i < rest.len() && read_alert(rest[i]) is None);
            if read_alert(items[last]) is None {
                assert(skipped(items)[front.len() as int] == last);
                if front.contains(i) {
                    let k = choose|k: int| 0 <= k < front.len() && front[k] == i;
                    assert(skipped(items)[k] == i);
                }
                if skipped(items).contains(i) && i != last {
                    let k = choose|k: int|
                        0 <= k < skipped(items).len() && skipped(items)[k] == i;
                    assert(front[k] == i);
                }
            }
        }
    }
}

/// The members without those of the given name.
pub open spec fn without_member(
    members: Seq<(Seq<char>, JsonView)>,
    name: Seq<char>,
) -> Seq<(Seq<char>, JsonView)>
    decreases members.len(),
{
    if members.len() == 0 {
        Seq::empty()
    } else if members.last().0 == name {
        without_member(members.drop_last(), name)
    } else {
        without_member(members.drop_last(), name).push(members.last())
    }
}

/// The alert with the field of the given number, in the order of
/// [`alert_field_names`], as it is where the field is absent.
pub open spec fn with_field_absent(alert: AlertView, field: int) -> AlertView {
    if field == 1 {
        AlertView { state: Seq::empty(), ..alert }
    } else if field == 2 {
        AlertView { labels: Map::empty(), ..alert }
    } else if field == 3 {
        AlertView { annotations: Map::empty(), ..alert }
    } else if field == 5 {
        AlertView { generator_url: None, ..alert }
    } else {
        AlertView { source_url: None, ..alert }
    }
}

/// An alert needs its fingerprint and its start. Leaving out any other field
/// leaves an alert, the same but for that field.
pub proof fn law_optional_fields(members: Seq<(Seq<char>, JsonView)>, field: int)
    requires
        read_alert(JsonView::Object(members)) is Some,
        field == 1 || field == 2 || field == 3 || field == 5 || field == 6,
    ensures
        read_alert(JsonView::Object(without_member(members, alert_field_names()[field]))) == Some(
            with_field_absent(read_alert(JsonView::Object(members))->0, field),
        ),
{
    let names = alert_field_names();
    let rest = without_member(members, names[field]);
    lemma_field_names_distinct();
    assert forall|i: int| 0 <= i < 7 implies member_values(rest, #[trigger] names[i]) == if i
        == field {
        Seq::<JsonView>::empty()
    } else {
        member_values(members, names[i])
    } by {
        lemma_without_member(members, names[field], names[i]);
    }
    let f = alert_slots(JsonView::Object(members))->0;
    let g = alert_slots(JsonView::Object(rest))->0;
    assert(alert_slots(JsonView::Object(rest)) is Some);
    assert forall|i: int| 0 <= i < 7 implies #[trigger] g[i] == if i == field {
        None
    } else {
        f[i]
    } by {
        assert(g[i] == member_slot(rest, names[i]));
    }
}

proof fn lemma_without_member(
    members: Seq<(Seq<char>, JsonView)>,
    gone: Seq<char>,
    name: Seq<char>,
)
    ensures
        member_values(without_member(members, gone), name) == if name == gone {
            Seq::<JsonView>::empty()
        } else {
            member_values(members, name)
        },
    decreases members.len(),
{
    if members.len() > 0 {
        let front = members.drop_last();
        lemma_without_member(front, gone, name);
        if members.last().0 != gone {
            assert(without_member(members, gone).drop_last() == without_member(front, gone));
        }
    }
}

pub(crate) proof fn lemma_field_names_distinct()
    ensures
        forall|i: int, j: int|
            0 <= i < 7 && 0 <= j < 7 && i != j ==> #[trigger] alert_field_names()[i]
                != #[trigger] alert_field_names()[j],
{
    reveal_strlit("fingerprint");
    reveal_strlit("status");
    reveal_strlit("labels");
    reveal_strlit("annotations");
    reveal_strlit("startsAt");
    reveal_strlit("generatorURL");
    reveal_strlit("sourceURL");
    assert("fingerprint"@[0] != "annotations"@[0]);
    assert("status"@[0] != "labels"@[0]);
    assert("fingerprint"@.len() == 11);
    assert("status"@.len() == 6);
    assert("labels"@.len() == 6);
    assert("annotations"@.len() == 11);
    assert("startsAt"@.len() == 8);
    assert("generatorURL"@.len() == 12);
    assert("sourceURL"@.len() == 9);
}

} // verus!

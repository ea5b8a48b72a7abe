//! What a cycle makes of the servers' answers, field by field.

use vstd::prelude::*;
#[allow(unused_imports)]
use crate::alert::{AlertView, firing, heartbeat, heartbeat_fires, named};
#[allow(unused_imports)]
use crate::config::AppConfigView;
#[allow(unused_imports)]
use crate::laws::merging::{
    came_from,
    law_alerts_distinct,
    law_last_report_wins,
    law_listed_alert_was_reported,
    law_reported_alert_is_listed,
    reported,
    reported_fingerprint,
    reported_later,
};
#[allow(unused_imports)]
use crate::laws::servers::{
    law_all_down_means_all_failed,
    law_error_is_of_last_failure,
    law_errors_are_of_failed_polls,
    law_last_heartbeat_kept,
    law_polled_servers_have_status,
    law_status_is_of_last_poll,
    poll_failed,
    polled_as,
};
#[allow(unused_imports)]
use crate::laws::wording::{has_address, has_ink, is_base, law_blank_text, law_trimming};
#[allow(unused_imports)]
use crate::notification::{NotificationView, firing_notification_view, resolved_notification_view};
#[allow(unused_imports)]
use crate::poll::{
    ServerPollView,
    ServerStatusView,
    connected,
    gathered,
    polled,
    reply_outcome,
    shown,
    stamped,
};
#[allow(unused_imports)]
use crate::state::{
    ActionView,
    AppStateView,
    ServerReply,
    any_critical,
    begun_state,
    critical,
    cycle_actions,
    cycle_state,
    firing_actions,
    initial_state,
    reply_polls,
    resolved_actions,
};
#[allow(unused_imports)]
use crate::text::without_trailing_slashes;

verus! {

// ---- The alerts ----

/// The alert is active, and does not bear the heartbeat's name, if there is
/// one.
pub open spec fn listable(alert: AlertView, heartbeat_name: Seq<char>) -> bool {
    &&& alert.state == "active"@
    &&& !(has_ink(heartbeat_name) && alert.labels.contains_key("alertname"@)
        && alert.labels["alertname"@] == heartbeat_name)
}

/// The server number `p` has an address and answered with alerts, and number
/// `k` of them is one to list.
pub open spec fn reports(
    polls: Seq<ServerPollView>,
    heartbeat_name: Seq<char>,
    p: int,
    k: int,
) -> bool {
    &&& 0 <= p < polls.len()
    &&& has_address(polls[p].url)
    &&& polls[p].outcome matches Some(Ok(alerts))
    &&& 0 <= k < alerts.len()
    &&& listable(alerts[k], heartbeat_name)
}

/// The alert number `k` in the answer of the server number `p`.
pub open spec fn report(polls: Seq<ServerPollView>, p: int, k: int) -> AlertView {
    polls[p].outcome->0->Ok_0[k]
}

/// The listed alert is the reported one in every field but its source, which is
/// the URL of the server without slashes at the end.
pub open spec fn listed_as(listed: AlertView, told: AlertView, url: Seq<char>) -> bool {
    &&& listed.fingerprint == told.fingerprint
    &&& listed.state == told.state
    &&& listed.labels == told.labels
    &&& listed.annotations == told.annotations
    &&& listed.starts_at == told.starts_at
    &&& listed.generator_url == told.generator_url
    &&& listed.source_url matches Some(base) && is_base(base, url) && base.len() > 0
}

/// The listed alert is the one that the server number `p` reported as number
/// `k`.
pub open spec fn listed_from(
    polls: Seq<ServerPollView>,
    heartbeat_name: Seq<char>,
    listed: AlertView,
    p: int,
    k: int,
) -> bool {
    reports(polls, heartbeat_name, p, k) && listed_as(listed, report(polls, p, k), polls[p].url)
}

proof fn lemma_shown(alert: AlertView, heartbeat_name: Seq<char>)
    ensures
        shown(alert, heartbeat_name) <==> listable(alert, heartbeat_name),
{
    law_blank_text(heartbeat_name, ' ');
}

proof fn lemma_polled(poll: ServerPollView)
    ensures
        polled(poll) <==> has_address(poll.url) && poll.outcome is Some,
{
    law_trimming(poll.url);
}

proof fn lemma_reports(polls: Seq<ServerPollView>, heartbeat_name: Seq<char>, p: int, k: int)
    ensures
        reports(polls, heartbeat_name, p, k) <==> reported(polls, heartbeat_name, p, k),
{
    if 0 <= p < polls.len() {
        lemma_polled(polls[p]);
        lemma_shown(report(polls, p, k), heartbeat_name);
    }
}

/// Every listed alert was reported by a server of this cycle and is listed as
/// it was reported, with that server for its source. It is active and not the
/// heartbeat alert.
pub proof fn law_listed_as_reported(
    polls: Seq<ServerPollView>,
    heartbeat_name: Seq<char>,
    now: Seq<char>,
    previous: Map<Seq<char>, ServerStatusView>,
    i: int,
)
    requires
        0 <= i < gathered(polls, heartbeat_name, now, previous).alerts.len(),
    ensures
        exists|p: int, k: int|
            listed_from(
                polls,
                heartbeat_name,
                gathered(polls, heartbeat_name, now, previous).alerts[i],
                p,
                k,
            ),
        listable(gathered(polls, heartbeat_name, now, previous).alerts[i], heartbeat_name),
{
    let alert = gathered(polls, heartbeat_name, now, previous).alerts[i];
    law_listed_alert_was_reported(polls, heartbeat_name, now, previous, i);
    let (p, k) = choose|p: int, k: int| came_from(polls, heartbeat_name, alert, p, k);
    lemma_reports(polls, heartbeat_name, p, k);
    law_trimming(polls[p].url);
    assert(listed_from(polls, heartbeat_name, alert, p, k));
}

/// Every reported alert that is one to list is listed. Of several reports with
/// one fingerprint the last is listed, and none is listed twice.
pub proof fn law_every_report_listed(
    polls: Seq<ServerPollView>,
    heartbeat_name: Seq<char>,
    now: Seq<char>,
    previous: Map<Seq<char>, ServerStatusView>,
    p: int,
    k: int,
)
    requires
        reports(polls, heartbeat_name, p, k),
    ensures
        ({
            let alerts = gathered(polls, heartbeat_name, now, previous).alerts;
            &&& exists|i: int|
                0 <= i < alerts.len() && (#[trigger] alerts[i]).fingerprint == report(
                    polls,
                    p,
                    k,
                ).fingerprint
            &&& (forall|q: int, l: int|
                (q > p || q == p && l > k) && #[trigger] reports(polls, heartbeat_name, q, l)
                    ==> report(polls, q, l).fingerprint != report(polls, p, k).fingerprint)
                ==> exists|i: int|
                0 <= i < alerts.len() && listed_as(
                    #[trigger] alerts[i],
                    report(polls, p, k),
                    polls[p].url,
                )
            &&& forall|i: int, j: int|
                0 <= i < alerts.len() && 0 <= j < alerts.len() && i != j ==> (
                #[trigger] alerts[i]).fingerprint != (#[trigger] alerts[j]).fingerprint
        }),
{
    let alerts = gathered(polls, heartbeat_name, now, previous).alerts;
    let told = report(polls, p, k);
    lemma_reports(polls, heartbeat_name, p, k);
    law_reported_alert_is_listed(polls, heartbeat_name, now, previous, p, k);
    law_alerts_distinct(polls, heartbeat_name, now, previous);
    assert forall|i: int, j: int|
        0 <= i < alerts.len() && 0 <= j < alerts.len() && i != j implies (
    #[trigger] alerts[i]).fingerprint != (#[trigger] alerts[j]).fingerprint by {
        if j < i {
            assert(alerts[j].fingerprint != alerts[i].fingerprint);
        }
    }
    if forall|q: int, l: int|
        (q > p || q == p && l > k) && #[trigger] reports(polls, heartbeat_name, q, l) ==> report(
            polls,
            q,
            l,
        ).fingerprint != told.fingerprint {
        assert forall|q: int, l: int|
            !reported_later(
                polls,
                heartbeat_name,
                reported_fingerprint(polls, p, k),
                p,
                k,
                q,
                l,
            ) by {
            lemma_reports(polls, heartbeat_name, q, l);
        }
        law_last_report_wins(polls, heartbeat_name, now, previous, p, k);
        law_trimming(polls[p].url);
        let wanted = stamped(told, without_trailing_slashes(polls[p].url));
        let i = choose|i: int| 0 <= i < alerts.len() && alerts[i] == wanted;
        assert(listed_as(alerts[i], told, polls[p].url));
    }
}

// ---- The servers ----

/// One of the alerts is active and bears the heartbeat's name.
pub open spec fn heartbeat_among(alerts: Seq<AlertView>, heartbeat_name: Seq<char>) -> bool {
    exists|k: int|
        0 <= k < alerts.len() && (#[trigger] alerts[k]).state == "active"@
            && alerts[k].labels.contains_key("alertname"@) && alerts[k].labels["alertname"@]
            == heartbeat_name
}

/// The server number `p` has the given URL and an address, and was polled.
pub open spec fn polled_at(polls: Seq<ServerPollView>, url: Seq<char>, p: int) -> bool {
    &&& 0 <= p < polls.len()
    &&& polls[p].url == url
    &&& has_address(url)
    &&& polls[p].outcome is Some
}

/// The server has an address, and polling it went wrong.
pub open spec fn went_wrong(poll: ServerPollView) -> bool {
    has_address(poll.url) && poll.outcome is Some && poll.outcome->0 is Err
}

proof fn lemma_heartbeat_among(alerts: Seq<AlertView>, heartbeat_name: Seq<char>)
    ensures
        heartbeat_fires(alerts, heartbeat_name) <==> heartbeat_among(alerts, heartbeat_name),
{
    if heartbeat_fires(alerts, heartbeat_name) {
        let k = choose|k: int|
            0 <= k < alerts.len() && firing(#[trigger] alerts[k]) && named(
                alerts[k],
                heartbeat_name,
            );
        assert(alerts[k].state == "active"@);
    }
    if heartbeat_among(alerts, heartbeat_name) {
        let k = choose|k: int|
            0 <= k < alerts.len() && (#[trigger] alerts[k]).state == "active"@
                && alerts[k].labels.contains_key("alertname"@) && alerts[k].labels["alertname"@]
                == heartbeat_name;
        assert(firing(alerts[k]));
    }
}

/// An alert fires if its state is `active`, and is the heartbeat alert if it
/// bears the heartbeat's name and that is not blank, whether it fires or not.
/// The heartbeat fires among alerts if one of them bears the name and fires.
pub proof fn law_heartbeat_alert(
    alert: AlertView,
    alerts: Seq<AlertView>,
    heartbeat_name: Seq<char>,
)
    ensures
        firing(alert) <==> alert.state == "active"@,
        heartbeat(alert, heartbeat_name) <==> has_ink(heartbeat_name) && alert.labels.contains_key(
            "alertname"@,
        ) && alert.labels["alertname"@] == heartbeat_name,
        heartbeat_fires(alerts, heartbeat_name) <==> heartbeat_among(alerts, heartbeat_name),
{
    law_blank_text(heartbeat_name, ' ');
    lemma_heartbeat_among(alerts, heartbeat_name);
}

/// A server that is not reachable is not connected. One that is reachable is,
/// unless a heartbeat is asked for and was not seen.
pub proof fn law_connected(reachable: bool, heartbeat_seen: bool, heartbeat_name: Seq<char>)
    ensures
        !reachable ==> !connected(reachable, heartbeat_seen, heartbeat_name),
        reachable && heartbeat_seen ==> connected(reachable, heartbeat_seen, heartbeat_name),
        reachable && !heartbeat_seen ==> (connected(reachable, heartbeat_seen, heartbeat_name)
            <==> !has_ink(heartbeat_name)),
{
    law_blank_text(heartbeat_name, ' ');
}

/// Each poll that went wrong counts once, and no other counts.
pub proof fn law_failures_counted(
    polls: Seq<ServerPollView>,
    poll: ServerPollView,
    heartbeat_name: Seq<char>,
    now: Seq<char>,
    previous: Map<Seq<char>, ServerStatusView>,
)
    ensures
        gathered(Seq::empty(), heartbeat_name, now, previous).failed == 0,
        gathered(polls.push(poll), heartbeat_name, now, previous).failed == gathered(
            polls,
            heartbeat_name,
            now,
            previous,
        ).failed + if went_wrong(poll) {
            1nat
        } else {
            0nat
        },
{
    assert(polls.push(poll).drop_last() == polls);
    lemma_polled(poll);
}

proof fn lemma_polled_at(polls: Seq<ServerPollView>, url: Seq<char>, p: int)
    ensures
        polled_as(polls, url, p) <==> polled_at(polls, url, p),
{
    if 0 <= p < polls.len() {
        lemma_polled(polls[p]);
    }
}

/// A URL has a status exactly if it was polled in this cycle. The status tells
/// how the last poll under it went: the server is reachable if it answered with
/// alerts, the heartbeat is there if it was among them, and the server is
/// connected if it is reachable and the heartbeat is there or has no name.
pub proof fn law_status_tells(
    polls: Seq<ServerPollView>,
    heartbeat_name: Seq<char>,
    now: Seq<char>,
    previous: Map<Seq<char>, ServerStatusView>,
    url: Seq<char>,
    p: int,
)
    requires
        polled_at(polls, url, p),
        forall|q: int| p < q < polls.len() ==> !#[trigger] polled_at(polls, url, q),
    ensures
        ({
            let statuses = gathered(polls, heartbeat_name, now, previous).statuses;
            let status = statuses[url];
            let outcome = polls[p].outcome->0;
            &&& statuses.contains_key(url)
            &&& status.url == url
            &&& status.checked_at == now
            &&& status.reachable <==> outcome is Ok
            &&& status.heartbeat_ok <==> outcome is Ok && heartbeat_among(
                outcome->Ok_0,
                heartbeat_name,
            )
            &&& status.connected <==> outcome is Ok && (heartbeat_among(
                outcome->Ok_0,
                heartbeat_name,
            ) || !has_ink(heartbeat_name))
            &&& outcome is Ok ==> status.last_error is None
            &&& outcome is Err ==> status.last_error == Some(outcome->Err_0)
            &&& status.heartbeat_ok ==> status.last_heartbeat_at == Some(now)
            &&& !status.heartbeat_ok && previous.contains_key(url) ==> status.last_heartbeat_at
                == previous[url].last_heartbeat_at
            &&& !status.heartbeat_ok && !previous.contains_key(url)
                ==> status.last_heartbeat_at is None
        }),
{
    lemma_polled_at(polls, url, p);
    assert forall|q: int| p < q < polls.len() implies !#[trigger] polled_as(
        polls,
        polls[p].url,
        q,
    ) by {
        lemma_polled_at(polls, url, q);
        assert(!polled_at(polls, url, q));
    }
    law_status_is_of_last_poll(polls, heartbeat_name, now, previous, p);
    if let Ok(alerts) = polls[p].outcome->0 {
        lemma_heartbeat_among(alerts, heartbeat_name);
    }
    law_blank_text(heartbeat_name, ' ');
}

/// Only what was polled in this cycle has a status.
pub proof fn law_status_only_if_polled(
    polls: Seq<ServerPollView>,
    heartbeat_name: Seq<char>,
    now: Seq<char>,
    previous: Map<Seq<char>, ServerStatusView>,
    url: Seq<char>,
)
    ensures
        gathered(polls, heartbeat_name, now, previous).statuses.contains_key(url) <==> exists|
            p: int,
        |
            polled_at(polls, url, p),
{
    law_polled_servers_have_status(polls, heartbeat_name, now, previous, url);
    if exists|p: int| polled_as(polls, url, p) {
        let p = choose|p: int| polled_as(polls, url, p);
        lemma_polled_at(polls, url, p);
    }
    if exists|p: int| polled_at(polls, url, p) {
        let p = choose|p: int| polled_at(polls, url, p);
        lemma_polled_at(polls, url, p);
    }
}

/// A URL has an error exactly if a poll under it went wrong, and it is what went
/// wrong last.
pub proof fn law_error_tells(
    polls: Seq<ServerPollView>,
    heartbeat_name: Seq<char>,
    now: Seq<char>,
    previous: Map<Seq<char>, ServerStatusView>,
    url: Seq<char>,
)
    ensures
        ({
            let errors = gathered(polls, heartbeat_name, now, previous).errors;
            &&& errors.contains_key(url) <==> exists|p: int|
                0 <= p < polls.len() && went_wrong(#[trigger] polls[p]) && polls[p].url == url
            &&& forall|p: int|
                0 <= p < polls.len() && went_wrong(#[trigger] polls[p]) && polls[p].url == url && (
                forall|q: int|
                    p < q < polls.len() && went_wrong(#[trigger] polls[q]) ==> polls[q].url != url)
                    ==> errors[url] == polls[p].outcome->0->Err_0
        }),
{
    let errors = gathered(polls, heartbeat_name, now, previous).errors;
    law_errors_are_of_failed_polls(polls, heartbeat_name, now, previous, url);
    if exists|p: int| #[trigger] polled_as(polls, url, p) && poll_failed(polls[p]) {
        let p = choose|p: int| #[trigger] polled_as(polls, url, p) && poll_failed(polls[p]);
        lemma_polled(polls[p]);
        assert(went_wrong(polls[p]));
    }
    if exists|p: int|
        0 <= p < polls.len() && went_wrong(#[trigger] polls[p]) && polls[p].url == url {
        let p = choose|p: int|
            0 <= p < polls.len() && went_wrong(#[trigger] polls[p]) && polls[p].url == url;
        lemma_polled(polls[p]);
        assert(polled_as(polls, url, p));
    }
    assert forall|p: int|
        0 <= p < polls.len() && went_wrong(#[trigger] polls[p]) && polls[p].url == url && (forall|
            q: int,
        |
            p < q < polls.len() && went_wrong(#[trigger] polls[q]) ==> polls[q].url
                != url) implies errors[url] == polls[p].outcome->0->Err_0 by {
        lemma_polled(polls[p]);
        assert forall|q: int|
            p < q < polls.len() && poll_failed(#[trigger] polls[q]) implies polls[q].url
            != polls[p].url by {
            lemma_polled(polls[q]);
            assert(went_wrong(polls[q]));
        }
        law_error_is_of_last_failure(polls, heartbeat_name, now, previous, p);
    }
}

/// Where the heartbeat did not come, the time at which it last came is the one
/// known before the cycle. Where it came, it is the time of the cycle.
pub proof fn law_heartbeat_time(
    before: AppStateView,
    polls: Seq<ServerPollView>,
    heartbeat_name: Seq<char>,
    now: Seq<char>,
    url: Seq<char>,
)
    requires
        cycle_state(before, polls, heartbeat_name, now).server_statuses.contains_key(url),
    ensures
        ({
            let known = before.server_statuses;
            let after = cycle_state(before, polls, heartbeat_name, now).server_statuses;
            &&& after[url].heartbeat_ok ==> after[url].last_heartbeat_at == Some(now)
            &&& !after[url].heartbeat_ok && known.contains_key(url)
                ==> after[url].last_heartbeat_at == known[url].last_heartbeat_at
            &&& !after[url].heartbeat_ok && !known.contains_key(url)
                ==> after[url].last_heartbeat_at is None
        }),
{
    law_last_heartbeat_kept(polls, heartbeat_name, now, before.server_statuses, url);
}

/// One state follows the other by a round: the configuration may be refreshed,
/// and then a cycle is run.
pub open spec fn follows_by_round(before: AppStateView, after: AppStateView) -> bool {
    exists|
        loaded: Option<AppConfigView>,
        polls: Seq<ServerPollView>,
        heartbeat_name: Seq<char>,
        now: Seq<char>,
    |
        after == #[trigger] cycle_state(begun_state(before, loaded), polls, heartbeat_name, now)
}

/// However many rounds go by without a heartbeat of a server that is polled in
/// each of them, the time at which it last came stays the same.
pub proof fn law_heartbeat_time_stays(states: Seq<AppStateView>, url: Seq<char>)
    requires
        states.len() > 0,
        forall|i: int, j: int|
            0 <= i < states.len() && j == i + 1 && j < states.len() ==> follows_by_round(
                #[trigger] states[i],
                #[trigger] states[j],
            ),
        forall|i: int|
            0 <= i < states.len() ==> (#[trigger] states[i]).server_statuses.contains_key(url),
        forall|i: int|
            0 < i < states.len() ==> !(#[trigger] states[i]).server_statuses[url].heartbeat_ok,
    ensures
        states.last().server_statuses[url].last_heartbeat_at
            == states[0].server_statuses[url].last_heartbeat_at,
    decreases states.len(),
{
    if states.len() > 1 {
        let front = states.drop_last();
        assert forall|i: int, j: int|
            0 <= i < front.len() && j == i + 1 && j < front.len() implies follows_by_round(
            #[trigger] front[i],
            #[trigger] front[j],
        ) by {
            assert(follows_by_round(states[i], states[j]));
        }
        law_heartbeat_time_stays(front, url);
        let at = states.len() - 1;
        let before = states[at - 1];
        assert(follows_by_round(before, states[at]));
        let (loaded, polls, heartbeat_name, now) = choose|
            loaded: Option<AppConfigView>,
            polls: Seq<ServerPollView>,
            heartbeat_name: Seq<char>,
            now: Seq<char>,
        |
            states[at] == #[trigger] cycle_state(
                begun_state(before, loaded),
                polls,
                heartbeat_name,
                now,
            );
        law_heartbeat_time(begun_state(before, loaded), polls, heartbeat_name, now, url);
        assert(front.last() == before);
    }
}

// ---- The state and the actions ----

/// What is known before the first cycle: the configuration and nothing else.
pub proof fn law_first_state(config: AppConfigView)
    ensures
        initial_state(config).config == config,
        forall|k: Seq<char>|
            !(#[trigger] initial_state(config).notified_fingerprints.contains(k)),
        initial_state(config).active_alerts.len() == 0,
        forall|k: Seq<char>| !(#[trigger] initial_state(config).connection_errors.contains_key(k)),
        forall|k: Seq<char>| !(#[trigger] initial_state(config).server_statuses.contains_key(k)),
        !initial_state(config).all_down_notified,
{
}

/// After a cycle the state holds what the cycle gathered. The user knows of the
/// listed alerts and of no others, and of a lost connection exactly if every
/// server went wrong.
pub proof fn law_state_after(
    before: AppStateView,
    polls: Seq<ServerPollView>,
    heartbeat_name: Seq<char>,
    now: Seq<char>,
)
    ensures
        ({
            let cycle = gathered(polls, heartbeat_name, now, before.server_statuses);
            let after = cycle_state(before, polls, heartbeat_name, now);
            &&& after.config == before.config
            &&& after.active_alerts == cycle.alerts
            &&& after.connection_errors == cycle.errors
            &&& after.server_statuses == cycle.statuses
            &&& forall|k: Seq<char>| #[trigger]
                after.notified_fingerprints.contains(k) <==> exists|i: int|
                    0 <= i < after.active_alerts.len() && (
                    #[trigger] after.active_alerts[i]).fingerprint == k
            &&& after.all_down_notified <==> polls.len() > 0 && forall|p: int|
                0 <= p < polls.len() ==> went_wrong(#[trigger] polls[p])
        }),
{
    lemma_all_down(polls, heartbeat_name, now, before.server_statuses);
}

proof fn lemma_all_down(
    polls: Seq<ServerPollView>,
    heartbeat_name: Seq<char>,
    now: Seq<char>,
    previous: Map<Seq<char>, ServerStatusView>,
)
    ensures
        ({
            let failed = gathered(polls, heartbeat_name, now, previous).failed;
            &&& polls.len() > 0 && failed == polls.len() <==> polls.len() > 0 && forall|p: int|
                0 <= p < polls.len() ==> went_wrong(#[trigger] polls[p])
            &&& failed > 0 <==> exists|p: int|
                0 <= p < polls.len() && went_wrong(#[trigger] polls[p])
        }),
{
    law_all_down_means_all_failed(polls, heartbeat_name, now, previous);
    assert forall|p: int| 0 <= p < polls.len() implies poll_failed(#[trigger] polls[p])
        == went_wrong(polls[p]) by {
        lemma_polled(polls[p]);
    }
}

/// What is said about the connection first: nothing, or that it was lost or
/// restored.
pub open spec fn said_first(told_before: bool, down: bool) -> Seq<ActionView> {
    if down == told_before {
        Seq::empty()
    } else if down {
        seq![
            ActionView::Notify(
                NotificationView {
                    title: "[CRITICAL] Connection Lost"@,
                    body: "Failed to connect to all registered Grafana instances."@,
                },
            ),
        ]
    } else {
        seq![
            ActionView::Notify(
                NotificationView {
                    title: "[RECOVERED] Connection Restored"@,
                    body: "Successfully reconnected to Grafana."@,
                },
            ),
        ]
    }
}

/// What a cycle does, in order: it says that the connection was lost or
/// restored, if it was, shows the tray, tells of the alerts that went away and
/// then of the new ones. The tray shows an error exactly if a poll went wrong
/// or a listed alert is of critical severity.
pub proof fn law_actions_in_order(
    before: AppStateView,
    polls: Seq<ServerPollView>,
    heartbeat_name: Seq<char>,
    now: Seq<char>,
    has_error: bool,
)
    requires
        has_error == ((exists|p: int| 0 <= p < polls.len() && went_wrong(#[trigger] polls[p]))
            || exists|i: int|
            0 <= i < cycle_state(before, polls, heartbeat_name, now).active_alerts.len() && {
                let labels = (#[trigger] cycle_state(
                    before,
                    polls,
                    heartbeat_name,
                    now,
                ).active_alerts[i]).labels;
                labels.contains_key("severity"@) && labels["severity"@] == "critical"@
            }),
    ensures
        ({
            let after = cycle_state(before, polls, heartbeat_name, now);
            cycle_actions(before, polls, heartbeat_name, now) == said_first(
                before.all_down_notified,
                after.all_down_notified,
            ) + seq![ActionView::ShowTray { has_error }] + resolved_actions(
                before.active_alerts,
                after.notified_fingerprints,
                before.notified_fingerprints,
            ) + firing_actions(after.active_alerts, before.notified_fingerprints)
        }),
{
    let alerts = cycle_state(before, polls, heartbeat_name, now).active_alerts;
    lemma_all_down(polls, heartbeat_name, now, before.server_statuses);
    if any_critical(alerts) {
        let i = choose|i: int| 0 <= i < alerts.len() && critical(#[trigger] alerts[i]);
        assert(alerts[i].labels["severity"@] == "critical"@);
    }
    if exists|i: int|
        0 <= i < alerts.len() && {
            let labels = (#[trigger] alerts[i]).labels;
            labels.contains_key("severity"@) && labels["severity"@] == "critical"@
        } {
        let i = choose|i: int|
            0 <= i < alerts.len() && {
                let labels = (#[trigger] alerts[i]).labels;
                labels.contains_key("severity"@) && labels["severity"@] == "critical"@
            };
        assert(critical(alerts[i]));
    }
}

/// One alert is told of as new exactly if the user does not know it, and as
/// resolved exactly if the user knows it and it fires no longer: once.
pub proof fn law_told_once(
    alert: AlertView,
    now_firing: Set<Seq<char>>,
    notified: Set<Seq<char>>,
)
    ensures
        firing_actions(seq![alert], notified) == if notified.contains(alert.fingerprint) {
            Seq::empty()
        } else {
            seq![ActionView::Notify(firing_notification_view(alert))]
        },
        resolved_actions(seq![alert], now_firing, notified) == if notified.contains(
            alert.fingerprint,
        ) && !now_firing.contains(alert.fingerprint) {
            seq![ActionView::Notify(resolved_notification_view(alert))]
        } else {
            Seq::empty()
        },
        firing_actions(Seq::empty(), notified).len() == 0,
        resolved_actions(Seq::empty(), now_firing, notified).len() == 0,
{
    let none = Seq::<AlertView>::empty();
    assert(seq![alert].drop_last() =~= none);
    assert(seq![alert].last() == alert);
    assert(firing_actions(none, notified) =~= Seq::<ActionView>::empty());
    assert(resolved_actions(none, now_firing, notified) =~= Seq::<ActionView>::empty());
    let new = seq![ActionView::Notify(firing_notification_view(alert))];
    let gone = seq![ActionView::Notify(resolved_notification_view(alert))];
    assert(Seq::<ActionView>::empty().push(new[0]) =~= new);
    assert(Seq::<ActionView>::empty().push(gone[0]) =~= gone);
}

/// What is told of two lists of alerts, one after the other, is what is told of
/// the first and then what is told of the second.
pub proof fn law_told_in_order(
    a: Seq<AlertView>,
    b: Seq<AlertView>,
    now_firing: Set<Seq<char>>,
    notified: Set<Seq<char>>,
)
    ensures
        firing_actions(a + b, notified) == firing_actions(a, notified) + firing_actions(b, notified),
        resolved_actions(a + b, now_firing, notified) == resolved_actions(a, now_firing, notified)
            + resolved_actions(b, now_firing, notified),
    decreases b.len(),
{
    if b.len() == 0 {
        assert(a + b == a);
    } else {
        law_told_in_order(a, b.drop_last(), now_firing, notified);
        assert((a + b).drop_last() == a + b.drop_last());
        assert((a + b).last() == b.last());
    }
    assert(firing_actions(a + b, notified) =~= firing_actions(a, notified) + firing_actions(
        b,
        notified,
    ));
    assert(resolved_actions(a + b, now_firing, notified) =~= resolved_actions(
        a,
        now_firing,
        notified,
    ) + resolved_actions(b, now_firing, notified));
}

/// Each reply is taken for the server that it came from, in order, and a server
/// without a reply counts as not polled.
pub proof fn law_replies_in_order(replies: Seq<ServerReply>, i: int)
    requires
        0 <= i < replies.len(),
    ensures
        reply_polls(replies).len() == replies.len(),
        reply_polls(replies)[i].url == replies[i].server.url@,
        replies[i].reply is None ==> reply_polls(replies)[i].outcome is None,
        replies[i].reply matches Some(reply) ==> reply_polls(replies)[i].outcome == Some(
            reply_outcome(reply),
        ),
{
}

} // verus!

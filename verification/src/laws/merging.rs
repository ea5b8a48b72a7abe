//! What holds of the list of alerts that a cycle gathers.

use vstd::prelude::*;
#[allow(unused_imports)]
use crate::alert::{AlertView, firing, heartbeat};
#[allow(unused_imports)]
use crate::poll::{
    ServerPollView,
    ServerStatusView,
    distinct_fingerprints,
    gathered,
    lemma_merged_distinct,
    merged_in,
    polled,
    shown,
    stamped,
    with_alerts,
};
#[allow(unused_imports)]
use crate::state::fingerprints;
#[allow(unused_imports)]
use crate::text::without_trailing_slashes;

verus! {

/// The alert was listed by a polled server as its alert number `k`, is one to
/// show, and is marked with that server.
pub open spec fn came_from(
    polls: Seq<ServerPollView>,
    heartbeat_name: Seq<char>,
    alert: AlertView,
    p: int,
    k: int,
) -> bool {
    &&& reported(polls, heartbeat_name, p, k)
    &&& alert == stamped(
        polls[p].outcome->0->Ok_0[k],
        without_trailing_slashes(polls[p].url),
    )
}

/// The polled server number `p` listed, as its alert number `k`, an alert to
/// show.
pub open spec fn reported(
    polls: Seq<ServerPollView>,
    heartbeat_name: Seq<char>,
    p: int,
    k: int,
) -> bool {
    &&& 0 <= p < polls.len()
    &&& polled(polls[p])
    &&& polls[p].outcome->0 is Ok
    &&& 0 <= k < polls[p].outcome->0->Ok_0.len()
    &&& shown(polls[p].outcome->0->Ok_0[k], heartbeat_name)
}

/// The fingerprint of a reported alert.
pub open spec fn reported_fingerprint(polls: Seq<ServerPollView>, p: int, k: int) -> Seq<char> {
    polls[p].outcome->0->Ok_0[k].fingerprint
}

/// No alert is listed twice, however many servers report it.
pub proof fn law_alerts_distinct(
    polls: Seq<ServerPollView>,
    heartbeat_name: Seq<char>,
    now: Seq<char>,
    previous: Map<Seq<char>, ServerStatusView>,
)
    ensures
        distinct_fingerprints(gathered(polls, heartbeat_name, now, previous).alerts),
    decreases polls.len(),
{
    if polls.len() > 0 {
        let front = gathered(polls.drop_last(), heartbeat_name, now, previous);
        law_alerts_distinct(polls.drop_last(), heartbeat_name, now, previous);
        if polled(polls.last()) && polls.last().outcome->0 is Ok {
            lemma_with_alerts_distinct(
                front.alerts,
                polls.last().outcome->0->Ok_0,
                heartbeat_name,
                without_trailing_slashes(polls.last().url),
            );
        }
    }
}

proof fn lemma_with_alerts_distinct(
    listed: Seq<AlertView>,
    alerts: Seq<AlertView>,
    heartbeat_name: Seq<char>,
    source: Seq<char>,
)
    requires
        distinct_fingerprints(listed),
    ensures
        distinct_fingerprints(with_alerts(listed, alerts, heartbeat_name, source)),
    decreases alerts.len(),
{
    if alerts.len() > 0 {
        lemma_with_alerts_distinct(listed, alerts.drop_last(), heartbeat_name, source);
        lemma_merged_distinct(
            with_alerts(listed, alerts.drop_last(), heartbeat_name, source),
            stamped(alerts.last(), source),
        );
    }
}

/// Each listed alert was reported by a polled server and is marked with it.
pub proof fn law_listed_alert_was_reported(
    polls: Seq<ServerPollView>,
    heartbeat_name: Seq<char>,
    now: Seq<char>,
    previous: Map<Seq<char>, ServerStatusView>,
    i: int,
)
    requires
        0 <= i < gathered(polls, heartbeat_name, now, previous).alerts.len(),
    ensures
        exists|p: int, k: int|
            came_from(
                polls,
                heartbeat_name,
                gathered(polls, heartbeat_name, now, previous).alerts[i],
                p,
                k,
            ),
    decreases polls.len(),
{
    let front_polls = polls.drop_last();
    let front = gathered(front_polls, heartbeat_name, now, previous);
    let alert = gathered(polls, heartbeat_name, now, previous).alerts[i];
    let last = polls.last();
    if polled(last) && last.outcome->0 is Ok {
        let source = without_trailing_slashes(last.url);
        lemma_with_alerts_origin(
            front.alerts,
            last.outcome->0->Ok_0,
            heartbeat_name,
            source,
            i,
        );
        if front.alerts.contains(alert) {
            let j = choose|j: int| 0 <= j < front.alerts.len() && front.alerts[j] == alert;
            law_listed_alert_was_reported(front_polls, heartbeat_name, now, previous, j);
            let (p, k) = choose|p: int, k: int|
                came_from(front_polls, heartbeat_name, alert, p, k);
            assert(came_from(polls, heartbeat_name, alert, p, k));
        } else {
            let k = choose|k: int|
                0 <= k < last.outcome->0->Ok_0.len() && shown(
                    #[trigger] last.outcome->0->Ok_0[k],
                    heartbeat_name,
                ) && alert == stamped(last.outcome->0->Ok_0[k], source);
            assert(came_from(polls, heartbeat_name, alert, polls.len() - 1, k));
        }
    } else {
        law_listed_alert_was_reported(front_polls, heartbeat_name, now, previous, i);
        let (p, k) = choose|p: int, k: int| came_from(front_polls, heartbeat_name, alert, p, k);
        assert(came_from(polls, heartbeat_name, alert, p, k));
    }
}

proof fn lemma_with_alerts_origin(
    listed: Seq<AlertView>,
    alerts: Seq<AlertView>,
    heartbeat_name: Seq<char>,
    source: Seq<char>,
    i: int,
)
    requires
        0 <= i < with_alerts(listed, alerts, heartbeat_name, source).len(),
    ensures
        ({
            let alert = with_alerts(listed, alerts, heartbeat_name, source)[i];
            ||| listed.contains(alert)
            ||| exists|k: int|
                0 <= k < alerts.len() && shown(#[trigger] alerts[k], heartbeat_name) && alert
                    == stamped(alerts[k], source)
        }),
    decreases alerts.len(),
{
    if alerts.len() > 0 {
        let front_alerts = alerts.drop_last();
        let front = with_alerts(listed, front_alerts, heartbeat_name, source);
        let alert = with_alerts(listed, alerts, heartbeat_name, source)[i];
        let own = shown(alerts.last(), heartbeat_name) && alert == stamped(alerts.last(), source);
        if own {
            assert(shown(alerts[alerts.len() - 1], heartbeat_name));
        } else {
            assert(i < front.len() && front[i] == alert);
            lemma_with_alerts_origin(listed, front_alerts, heartbeat_name, source, i);
            if !listed.contains(alert) {
                let k = choose|k: int|
                    0 <= k < front_alerts.len() && shown(#[trigger] front_alerts[k], heartbeat_name)
                        && alert == stamped(front_alerts[k], source);
                assert(alerts[k] == front_alerts[k]);
            }
        }
    }
}

/// The heartbeat alert is never listed, and neither is one that does not fire.
pub proof fn law_heartbeat_never_listed(
    polls: Seq<ServerPollView>,
    heartbeat_name: Seq<char>,
    now: Seq<char>,
    previous: Map<Seq<char>, ServerStatusView>,
    i: int,
)
    requires
        0 <= i < gathered(polls, heartbeat_name, now, previous).alerts.len(),
    ensures
        !heartbeat(gathered(polls, heartbeat_name, now, previous).alerts[i], heartbeat_name),
        firing(gathered(polls, heartbeat_name, now, previous).alerts[i]),
{
    law_listed_alert_was_reported(polls, heartbeat_name, now, previous, i);
}

proof fn lemma_merged_keeps(alerts: Seq<AlertView>, alert: AlertView, other: AlertView)
    ensures
        merged_in(alerts, alert).contains(alert),
        alerts.contains(other) && other.fingerprint != alert.fingerprint ==> merged_in(
            alerts,
            alert,
        ).contains(other),
        fingerprints(merged_in(alerts, alert)) == fingerprints(alerts).insert(alert.fingerprint),
{
    let merged = merged_in(alerts, alert);
    if exists|i: int|
        0 <= i < alerts.len() && (#[trigger] alerts[i]).fingerprint == alert.fingerprint {
        let i = choose|i: int|
            0 <= i < alerts.len() && (#[trigger] alerts[i]).fingerprint == alert.fingerprint;
        assert(merged[i] == alert);
    } else {
        assert(merged[alerts.len() as int] == alert);
    }
    if alerts.contains(other) && other.fingerprint != alert.fingerprint {
        let j = choose|j: int| 0 <= j < alerts.len() && alerts[j] == other;
        assert(merged[j] == other);
    }
    assert forall|key: Seq<char>|
        fingerprints(merged).contains(key) <==> fingerprints(alerts).insert(
            alert.fingerprint,
        ).contains(key) by {
        if fingerprints(merged).contains(key) {
            let j = choose|j: int| 0 <= j < merged.len() && (#[trigger] merged[j]).fingerprint == key;
            if j < alerts.len() {
                assert(alerts[j].fingerprint == key);
            }
        }
        if fingerprints(alerts).contains(key) {
            let j = choose|j: int| 0 <= j < alerts.len() && (#[trigger] alerts[j]).fingerprint == key;
            assert(merged[j].fingerprint == key);
        }
        let j = choose|j: int| 0 <= j < merged.len() && merged[j] == alert;
        assert(merged[j].fingerprint == alert.fingerprint);
    }
    assert(fingerprints(merged) =~= fingerprints(alerts).insert(alert.fingerprint));
}

/// Every alert to show that a server reported is listed, under its fingerprint.
pub proof fn law_reported_alert_is_listed(
    polls: Seq<ServerPollView>,
    heartbeat_name: Seq<char>,
    now: Seq<char>,
    previous: Map<Seq<char>, ServerStatusView>,
    p: int,
    k: int,
)
    requires
        reported(polls, heartbeat_name, p, k),
    ensures
        fingerprints(gathered(polls, heartbeat_name, now, previous).alerts).contains(
            reported_fingerprint(polls, p, k),
        ),
    decreases polls.len(),
{
    let front_polls = polls.drop_last();
    let front = gathered(front_polls, heartbeat_name, now, previous);
    let last = polls.last();
    if p < polls.len() - 1 {
        assert(reported(front_polls, heartbeat_name, p, k));
        law_reported_alert_is_listed(front_polls, heartbeat_name, now, previous, p, k);
    }
    if polled(last) && last.outcome->0 is Ok {
        lemma_with_alerts_listed(
            front.alerts,
            last.outcome->0->Ok_0,
            heartbeat_name,
            without_trailing_slashes(last.url),
        );
    }
}

proof fn lemma_with_alerts_listed(
    listed: Seq<AlertView>,
    alerts: Seq<AlertView>,
    heartbeat_name: Seq<char>,
    source: Seq<char>,
)
    ensures
        fingerprints(listed).subset_of(
            fingerprints(with_alerts(listed, alerts, heartbeat_name, source)),
        ),
        forall|k: int|
            0 <= k < alerts.len() && shown(#[trigger] alerts[k], heartbeat_name) ==> fingerprints(
                with_alerts(listed, alerts, heartbeat_name, source),
            ).contains(alerts[k].fingerprint),
    decreases alerts.len(),
{
    if alerts.len() > 0 {
        let front_alerts = alerts.drop_last();
        let front = with_alerts(listed, front_alerts, heartbeat_name, source);
        lemma_with_alerts_listed(listed, front_alerts, heartbeat_name, source);
        lemma_merged_keeps(front, stamped(alerts.last(), source), alerts.last());
        assert forall|k: int|
            0 <= k < alerts.len() && shown(
                #[trigger] alerts[k],
                heartbeat_name,
            ) implies fingerprints(with_alerts(listed, alerts, heartbeat_name, source)).contains(
            alerts[k].fingerprint,
        ) by {
            if k < alerts.len() - 1 {
                assert(front_alerts[k] == alerts[k]);
            }
        }
    }
}

/// A later report of an alert with the given fingerprint, in the same reply or
/// in that of a later server.
pub open spec fn reported_later(
    polls: Seq<ServerPollView>,
    heartbeat_name: Seq<char>,
    fingerprint: Seq<char>,
    p: int,
    k: int,
    q: int,
    l: int,
) -> bool {
    &&& p < q || (p == q && k < l)
    &&& reported(polls, heartbeat_name, q, l)
    &&& reported_fingerprint(polls, q, l) == fingerprint
}

/// Of several reports of an alert the last one is listed, marked with the
/// server that it came from.
pub proof fn law_last_report_wins(
    polls: Seq<ServerPollView>,
    heartbeat_name: Seq<char>,
    now: Seq<char>,
    previous: Map<Seq<char>, ServerStatusView>,
    p: int,
    k: int,
)
    requires
        reported(polls, heartbeat_name, p, k),
        forall|q: int, l: int|
            !reported_later(
                polls,
                heartbeat_name,
                reported_fingerprint(polls, p, k),
                p,
                k,
                q,
                l,
            ),
    ensures
        gathered(polls, heartbeat_name, now, previous).alerts.contains(
            stamped(polls[p].outcome->0->Ok_0[k], without_trailing_slashes(polls[p].url)),
        ),
    decreases polls.len(),
{
    let fingerprint = reported_fingerprint(polls, p, k);
    let wanted = stamped(polls[p].outcome->0->Ok_0[k], without_trailing_slashes(polls[p].url));
    let front_polls = polls.drop_last();
    let front = gathered(front_polls, heartbeat_name, now, previous);
    let last = polls.last();
    let at = polls.len() - 1;
    if p < at {
        assert(reported(front_polls, heartbeat_name, p, k));
        assert forall|q: int, l: int|
            !reported_later(
                front_polls,
                heartbeat_name,
                reported_fingerprint(front_polls, p, k),
                p,
                k,
                q,
                l,
            ) by {
            if reported_later(front_polls, heartbeat_name, fingerprint, p, k, q, l) {
                assert(reported_later(polls, heartbeat_name, fingerprint, p, k, q, l));
            }
        }
        law_last_report_wins(front_polls, heartbeat_name, now, previous, p, k);
        if polled(last) && last.outcome->0 is Ok {
            let alerts = last.outcome->0->Ok_0;
            assert forall|l: int|
                0 <= l < alerts.len() && shown(
                    #[trigger] alerts[l],
                    heartbeat_name,
                ) implies alerts[l].fingerprint != fingerprint by {
                assert(!reported_later(polls, heartbeat_name, fingerprint, p, k, at, l));
            }
            lemma_with_alerts_keeps(
                front.alerts,
                alerts,
                heartbeat_name,
                without_trailing_slashes(last.url),
                wanted,
            );
        }
    } else {
        let alerts = last.outcome->0->Ok_0;
        assert forall|l: int|
            k < l < alerts.len() && shown(
                #[trigger] alerts[l],
                heartbeat_name,
            ) implies alerts[l].fingerprint != fingerprint by {
            assert(!reported_later(polls, heartbeat_name, fingerprint, p, k, at, l));
        }
        lemma_with_alerts_last(
            front.alerts,
            alerts,
            heartbeat_name,
            without_trailing_slashes(last.url),
            k,
        );
    }
}

proof fn lemma_with_alerts_keeps(
    listed: Seq<AlertView>,
    alerts: Seq<AlertView>,
    heartbeat_name: Seq<char>,
    source: Seq<char>,
    other: AlertView,
)
    requires
        listed.contains(other),
        forall|l: int|
            0 <= l < alerts.len() && shown(#[trigger] alerts[l], heartbeat_name)
                ==> alerts[l].fingerprint != other.fingerprint,
    ensures
        with_alerts(listed, alerts, heartbeat_name, source).contains(other),
    decreases alerts.len(),
{
    if alerts.len() > 0 {
        let front_alerts = alerts.drop_last();
        assert forall|l: int|
            0 <= l < front_alerts.len() && shown(
                #[trigger] front_alerts[l],
                heartbeat_name,
            ) implies front_alerts[l].fingerprint != other.fingerprint by {
            assert(front_alerts[l] == alerts[l]);
        }
        lemma_with_alerts_keeps(listed, front_alerts, heartbeat_name, source, other);
        assert(alerts[alerts.len() - 1] == alerts.last());
        lemma_merged_keeps(
            with_alerts(listed, front_alerts, heartbeat_name, source),
            stamped(alerts.last(), source),
            other,
        );
    }
}

proof fn lemma_with_alerts_last(
    listed: Seq<AlertView>,
    alerts: Seq<AlertView>,
    heartbeat_name: Seq<char>,
    source: Seq<char>,
    k: int,
)
    requires
        0 <= k < alerts.len(),
        shown(alerts[k], heartbeat_name),
        forall|l: int|
            k < l < alerts.len() && shown(#[trigger] alerts[l], heartbeat_name)
                ==> alerts[l].fingerprint != alerts[k].fingerprint,
    ensures
        with_alerts(listed, alerts, heartbeat_name, source).contains(stamped(alerts[k], source)),
    decreases alerts.len(),
{
    let front_alerts = alerts.drop_last();
    let front = with_alerts(listed, front_alerts, heartbeat_name, source);
    if k < alerts.len() - 1 {
        assert forall|l: int|
            k < l < front_alerts.len() && shown(
                #[trigger] front_alerts[l],
                heartbeat_name,
            ) implies front_alerts[l].fingerprint != front_alerts[k].fingerprint by {
            assert(front_alerts[l] == alerts[l]);
        }
        lemma_with_alerts_last(listed, front_alerts, heartbeat_name, source, k);
        assert(alerts[alerts.len() - 1] == alerts.last());
    }
    lemma_merged_keeps(front, stamped(alerts.last(), source), stamped(alerts[k], source));
}

} // verus!

//! What holds of the servers' statuses and errors after a cycle.

use vstd::prelude::*;
#[allow(unused_imports)]
use crate::alert::{AlertView, firing, heartbeat, heartbeat_fires, named};
#[allow(unused_imports)]
use crate::poll::{
    ServerPollView,
    ServerStatusView,
    gathered,
    known_heartbeat,
    polled,
    shown,
    status_after,
    with_alerts,
};
#[allow(unused_imports)]
use crate::state::all_down;
#[allow(unused_imports)]
use crate::text::blank;

verus! {

/// The server was polled and that went wrong.
pub open spec fn poll_failed(poll: ServerPollView) -> bool {
    polled(poll) && poll.outcome->0 is Err
}

/// The server number `p` was polled under the given URL.
pub open spec fn polled_as(polls: Seq<ServerPollView>, url: Seq<char>, p: int) -> bool {
    0 <= p < polls.len() && polled(polls[p]) && polls[p].url == url
}

/// A URL has a status exactly if a server was polled under it.
pub proof fn law_polled_servers_have_status(
    polls: Seq<ServerPollView>,
    heartbeat_name: Seq<char>,
    now: Seq<char>,
    previous: Map<Seq<char>, ServerStatusView>,
    url: Seq<char>,
)
    ensures
        gathered(polls, heartbeat_name, now, previous).statuses.contains_key(url) <==> exists|
            p: int,
        |
            polled_as(polls, url, p),
    decreases polls.len(),
{
    if polls.len() > 0 {
        let front = polls.drop_last();
        law_polled_servers_have_status(front, heartbeat_name, now, previous, url);
        if exists|p: int| polled_as(front, url, p) {
            let p = choose|p: int| polled_as(front, url, p);
            assert(polled_as(polls, url, p));
        }
        if polled(polls.last()) && polls.last().url == url {
            assert(polled_as(polls, url, polls.len() - 1));
        }
        if exists|p: int| polled_as(polls, url, p) {
            let p = choose|p: int| polled_as(polls, url, p);
            if p < polls.len() - 1 {
                assert(polled_as(front, url, p));
            }
        }
    } else {
        assert(forall|p: int| !polled_as(polls, url, p));
    }
}

/// The status of a URL is that of the last poll under it.
pub proof fn law_status_is_of_last_poll(
    polls: Seq<ServerPollView>,
    heartbeat_name: Seq<char>,
    now: Seq<char>,
    previous: Map<Seq<char>, ServerStatusView>,
    p: int,
)
    requires
        0 <= p < polls.len(),
        polled(polls[p]),
        forall|q: int| p < q < polls.len() ==> !#[trigger] polled_as(polls, polls[p].url, q),
    ensures
        gathered(polls, heartbeat_name, now, previous).statuses.contains_key(polls[p].url),
        gathered(polls, heartbeat_name, now, previous).statuses[polls[p].url] == status_after(
            polls[p].url,
            polls[p].outcome->0,
            heartbeat_name,
            now,
            previous,
        ),
    decreases polls.len(),
{
    let front = polls.drop_last();
    if p < polls.len() - 1 {
        assert forall|q: int| p < q < front.len() implies !#[trigger] polled_as(
            front,
            front[p].url,
            q,
        ) by {
            assert(!polled_as(polls, polls[p].url, q));
        }
        law_status_is_of_last_poll(front, heartbeat_name, now, previous, p);
        assert(!polled_as(polls, polls[p].url, polls.len() - 1));
    }
}

/// A server counts as connected only if a poll of it was answered with alerts
/// among which the heartbeat fires. With a blank heartbeat name the answer is
/// enough.
pub proof fn law_connected_needs_heartbeat(
    polls: Seq<ServerPollView>,
    heartbeat_name: Seq<char>,
    now: Seq<char>,
    previous: Map<Seq<char>, ServerStatusView>,
    url: Seq<char>,
)
    requires
        gathered(polls, heartbeat_name, now, previous).statuses.contains_key(url),
    ensures
        ({
            let status = gathered(polls, heartbeat_name, now, previous).statuses[url];
            &&& status.connected ==> status.reachable
            &&& !blank(heartbeat_name) ==> status.connected == status.heartbeat_ok
            &&& blank(heartbeat_name) ==> status.connected == status.reachable
            &&& status.heartbeat_ok ==> exists|p: int|
                #[trigger] polled_as(polls, url, p) && polls[p].outcome->0 is Ok
                    && heartbeat_fires(polls[p].outcome->0->Ok_0, heartbeat_name)
        }),
    decreases polls.len(),
{
    if polls.len() > 0 {
        let front = polls.drop_last();
        let last = polls.last();
        let at = polls.len() - 1;
        let status = gathered(polls, heartbeat_name, now, previous).statuses[url];
        if polled(last) && last.url == url {
            assert(polled_as(polls, url, at));
        } else {
            law_connected_needs_heartbeat(front, heartbeat_name, now, previous, url);
            if status.heartbeat_ok {
                let p = choose|p: int|
                    #[trigger] polled_as(front, url, p) && front[p].outcome->0 is Ok
                        && heartbeat_fires(front[p].outcome->0->Ok_0, heartbeat_name);
                assert(polled_as(polls, url, p));
            }
        }
    }
}

/// Where the heartbeat did not come, the time at which it last came stays
/// known.
pub proof fn law_last_heartbeat_kept(
    polls: Seq<ServerPollView>,
    heartbeat_name: Seq<char>,
    now: Seq<char>,
    previous: Map<Seq<char>, ServerStatusView>,
    url: Seq<char>,
)
    requires
        gathered(polls, heartbeat_name, now, previous).statuses.contains_key(url),
    ensures
        ({
            let status = gathered(polls, heartbeat_name, now, previous).statuses[url];
            &&& status.last_heartbeat_at == if status.heartbeat_ok {
                Some(now)
            } else {
                known_heartbeat(previous, url)
            }
            &&& status.checked_at == now
            &&& status.url == url
            &&& status.reachable == (status.last_error is None)
        }),
    decreases polls.len(),
{
    if polls.len() > 0 && !(polled(polls.last()) && polls.last().url == url) {
        law_last_heartbeat_kept(polls.drop_last(), heartbeat_name, now, previous, url);
    }
}

/// A URL is listed with an error exactly if a poll under it went wrong.
pub proof fn law_errors_are_of_failed_polls(
    polls: Seq<ServerPollView>,
    heartbeat_name: Seq<char>,
    now: Seq<char>,
    previous: Map<Seq<char>, ServerStatusView>,
    url: Seq<char>,
)
    ensures
        gathered(polls, heartbeat_name, now, previous).errors.contains_key(url) <==> exists|p: int|
            #[trigger] polled_as(polls, url, p) && poll_failed(polls[p]),
    decreases polls.len(),
{
    if polls.len() > 0 {
        let front = polls.drop_last();
        law_errors_are_of_failed_polls(front, heartbeat_name, now, previous, url);
        if exists|p: int| #[trigger] polled_as(front, url, p) && poll_failed(front[p]) {
            let p = choose|p: int| #[trigger] polled_as(front, url, p) && poll_failed(front[p]);
            assert(polled_as(polls, url, p));
        }
        if poll_failed(polls.last()) && polls.last().url == url {
            assert(polled_as(polls, url, polls.len() - 1));
        }
        if exists|p: int| #[trigger] polled_as(polls, url, p) && poll_failed(polls[p]) {
            let p = choose|p: int| #[trigger] polled_as(polls, url, p) && poll_failed(polls[p]);
            if p < polls.len() - 1 {
                assert(polled_as(front, url, p));
            }
        }
    } else {
        assert(forall|p: int| !polled_as(polls, url, p));
    }
}

/// The error of a URL is that of the last poll under it that went wrong.
pub proof fn law_error_is_of_last_failure(
    polls: Seq<ServerPollView>,
    heartbeat_name: Seq<char>,
    now: Seq<char>,
    previous: Map<Seq<char>, ServerStatusView>,
    p: int,
)
    requires
        0 <= p < polls.len(),
        poll_failed(polls[p]),
        forall|q: int|
            p < q < polls.len() && poll_failed(#[trigger] polls[q]) ==> polls[q].url != polls[p].url,
    ensures
        gathered(polls, heartbeat_name, now, previous).errors.contains_key(polls[p].url),
        gathered(polls, heartbeat_name, now, previous).errors[polls[p].url]
            == polls[p].outcome->0->Err_0,
    decreases polls.len(),
{
    let front = polls.drop_last();
    if p < polls.len() - 1 {
        assert forall|q: int|
            p < q < front.len() && poll_failed(#[trigger] front[q]) implies front[q].url
            != front[p].url by {
            assert(front[q] == polls[q]);
        }
        law_error_is_of_last_failure(front, heartbeat_name, now, previous, p);
        assert(polls[polls.len() - 1] == polls.last());
    }
}

/// Everything counts as down exactly if there are servers and the poll of each
/// of them went wrong.
pub proof fn law_all_down_means_all_failed(
    polls: Seq<ServerPollView>,
    heartbeat_name: Seq<char>,
    now: Seq<char>,
    previous: Map<Seq<char>, ServerStatusView>,
)
    ensures
        all_down(polls.len(), gathered(polls, heartbeat_name, now, previous).failed) <==> (
        polls.len() > 0 && forall|p: int| 0 <= p < polls.len() ==> poll_failed(#[trigger] polls[p])),
        gathered(polls, heartbeat_name, now, previous).failed == 0 <==> forall|p: int|
            0 <= p < polls.len() ==> !poll_failed(#[trigger] polls[p]),
{
    lemma_failed_count(polls, heartbeat_name, now, previous);
}

proof fn lemma_failed_count(
    polls: Seq<ServerPollView>,
    heartbeat_name: Seq<char>,
    now: Seq<char>,
    previous: Map<Seq<char>, ServerStatusView>,
)
    ensures
        gathered(polls, heartbeat_name, now, previous).failed <= polls.len(),
        gathered(polls, heartbeat_name, now, previous).failed == polls.len() <==> forall|p: int|
            0 <= p < polls.len() ==> poll_failed(#[trigger] polls[p]),
        gathered(polls, heartbeat_name, now, previous).failed == 0 <==> forall|p: int|
            0 <= p < polls.len() ==> !poll_failed(#[trigger] polls[p]),
    decreases polls.len(),
{
    if polls.len() > 0 {
        let front = polls.drop_last();
        lemma_failed_count(front, heartbeat_name, now, previous);
        let at = polls.len() - 1;
        assert(polls[at] == polls.last());
        assert forall|p: int| 0 <= p < front.len() implies #[trigger] polls[p] == front[p] by {}
        if forall|p: int| 0 <= p < polls.len() ==> poll_failed(#[trigger] polls[p]) {
            assert forall|p: int| 0 <= p < front.len() implies poll_failed(
                #[trigger] front[p],
            ) by {
                assert(poll_failed(polls[p]));
            }
        }
        if forall|p: int| 0 <= p < polls.len() ==> !poll_failed(#[trigger] polls[p]) {
            assert forall|p: int| 0 <= p < front.len() implies !poll_failed(
                #[trigger] front[p],
            ) by {
                assert(!poll_failed(polls[p]));
            }
        }
    }
}

/// The alerts of a reply that fire.
pub open spec fn only_firing(alerts: Seq<AlertView>) -> Seq<AlertView>
    decreases alerts.len(),
{
    if alerts.len() == 0 {
        Seq::empty()
    } else if firing(alerts.last()) {
        only_firing(alerts.drop_last()).push(alerts.last())
    } else {
        only_firing(alerts.drop_last())
    }
}

/// Alerts that do not fire, such as silenced ones, make no difference: neither
/// to what is listed nor to the heartbeat.
pub proof fn law_only_firing_alerts_count(
    listed: Seq<AlertView>,
    alerts: Seq<AlertView>,
    heartbeat_name: Seq<char>,
    source: Seq<char>,
)
    ensures
        with_alerts(listed, alerts, heartbeat_name, source) == with_alerts(
            listed,
            only_firing(alerts),
            heartbeat_name,
            source,
        ),
        heartbeat_fires(alerts, heartbeat_name) == heartbeat_fires(
            only_firing(alerts),
            heartbeat_name,
        ),
    decreases alerts.len(),
{
    if alerts.len() > 0 {
        let front = alerts.drop_last();
        let kept = only_firing(alerts);
        law_only_firing_alerts_count(listed, front, heartbeat_name, source);
        if firing(alerts.last()) {
            assert(kept.drop_last() == only_firing(front));
        }
        lemma_heartbeat_last(alerts, heartbeat_name);
        if firing(alerts.last()) {
            lemma_heartbeat_last(kept, heartbeat_name);
        }
    }
}

proof fn lemma_heartbeat_last(alerts: Seq<AlertView>, heartbeat_name: Seq<char>)
    requires
        alerts.len() > 0,
    ensures
        heartbeat_fires(alerts, heartbeat_name) == (heartbeat_fires(
            alerts.drop_last(),
            heartbeat_name,
        ) || (firing(alerts.last()) && named(alerts.last(), heartbeat_name))),
{
    let front = alerts.drop_last();
    if heartbeat_fires(front, heartbeat_name) {
        let i = choose|i: int|
            0 <= i < front.len() && firing(#[trigger] front[i]) && named(front[i], heartbeat_name);
        assert(firing(alerts[i]) && named(alerts[i], heartbeat_name));
    }
    if firing(alerts.last()) && named(alerts.last(), heartbeat_name) {
        assert(firing(alerts[alerts.len() - 1]));
    }
    if heartbeat_fires(alerts, heartbeat_name) {
        let i = choose|i: int|
            0 <= i < alerts.len() && firing(#[trigger] alerts[i]) && named(
                alerts[i],
                heartbeat_name,
            );
        if i < front.len() {
            assert(firing(front[i]) && named(front[i], heartbeat_name));
        }
    }
}

/// The alert that makes a server count as connected is not one that is shown.
pub proof fn law_heartbeat_is_not_shown(alert: AlertView, heartbeat_name: Seq<char>)
    requires
        !blank(heartbeat_name),
        named(alert, heartbeat_name),
    ensures
        !shown(alert, heartbeat_name),
{
}

/// With a blank heartbeat name every firing alert is shown.
pub proof fn law_blank_name_excludes_nothing(alert: AlertView, heartbeat_name: Seq<char>)
    requires
        blank(heartbeat_name),
    ensures
        !heartbeat(alert, heartbeat_name),
        shown(alert, heartbeat_name) == firing(alert),
{
}

} // verus!

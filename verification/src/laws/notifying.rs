//! What holds of the state and of what the user is notified of, cycle after
//! cycle.

use vstd::prelude::*;
#[allow(unused_imports)]
use crate::alert::{AlertView, heartbeat};
#[allow(unused_imports)]
use crate::config::AppConfigView;
#[allow(unused_imports)]
use crate::laws::merging::{law_alerts_distinct, law_heartbeat_never_listed};
#[allow(unused_imports)]
use crate::notification::{
    NotificationView,
    connection_lost_view,
    connection_restored_view,
    firing_notification_view,
    resolved_notification_view,
};
#[allow(unused_imports)]
use crate::poll::{ServerPollView, ServerStatusView, distinct_fingerprints, gathered};
#[allow(unused_imports)]
use crate::state::{
    ActionView,
    AppStateView,
    all_down,
    any_critical,
    connection_actions,
    cycle_actions,
    cycle_state,
    fingerprints,
    firing_actions,
    initial_state,
    lemma_front_fingerprints,
    resolved_actions,
    went_away,
};

verus! {

/// The user knows of exactly the alerts that are listed, and none is listed
/// twice.
pub open spec fn consistent(state: AppStateView) -> bool {
    &&& state.notified_fingerprints == fingerprints(state.active_alerts)
    &&& distinct_fingerprints(state.active_alerts)
}

/// The state before the first cycle is consistent.
pub proof fn law_initial_state_consistent(config: AppConfigView)
    ensures
        consistent(initial_state(config)),
{
    assert(initial_state(config).notified_fingerprints =~= fingerprints(Seq::empty()));
}

/// After a cycle the state is consistent, whatever it was before, and the
/// configuration is the same.
pub proof fn law_cycle_makes_consistent(
    before: AppStateView,
    polls: Seq<ServerPollView>,
    heartbeat_name: Seq<char>,
    now: Seq<char>,
)
    ensures
        consistent(cycle_state(before, polls, heartbeat_name, now)),
        cycle_state(before, polls, heartbeat_name, now).config == before.config,
{
    law_alerts_distinct(polls, heartbeat_name, now, before.server_statuses);
}

/// An alert that the user does not know of is notified of as soon as it is
/// listed.
pub proof fn law_new_alert_notified(
    before: AppStateView,
    polls: Seq<ServerPollView>,
    heartbeat_name: Seq<char>,
    now: Seq<char>,
    i: int,
)
    requires
        0 <= i < cycle_state(before, polls, heartbeat_name, now).active_alerts.len(),
        !before.notified_fingerprints.contains(
            cycle_state(before, polls, heartbeat_name, now).active_alerts[i].fingerprint,
        ),
    ensures
        cycle_actions(before, polls, heartbeat_name, now).contains(
            ActionView::Notify(
                firing_notification_view(
                    cycle_state(before, polls, heartbeat_name, now).active_alerts[i],
                ),
            ),
        ),
{
    let cycle = gathered(polls, heartbeat_name, now, before.server_statuses);
    let tail = firing_actions(cycle.alerts, before.notified_fingerprints);
    let actions = cycle_actions(before, polls, heartbeat_name, now);
    lemma_firing_contains(cycle.alerts, before.notified_fingerprints, i);
    let wanted = ActionView::Notify(firing_notification_view(cycle.alerts[i]));
    let j = choose|j: int| 0 <= j < tail.len() && tail[j] == wanted;
    assert(actions[actions.len() - tail.len() + j] == wanted);
}

proof fn lemma_firing_contains(alerts: Seq<AlertView>, notified: Set<Seq<char>>, i: int)
    requires
        0 <= i < alerts.len(),
        !notified.contains(alerts[i].fingerprint),
    ensures
        firing_actions(alerts, notified).contains(
            ActionView::Notify(firing_notification_view(alerts[i])),
        ),
    decreases alerts.len(),
{
    let wanted = ActionView::Notify(firing_notification_view(alerts[i]));
    let front = firing_actions(alerts.drop_last(), notified);
    if i < alerts.len() - 1 {
        lemma_firing_contains(alerts.drop_last(), notified, i);
        let j = choose|j: int| 0 <= j < front.len() && front[j] == wanted;
        assert(firing_actions(alerts, notified)[j] == wanted);
    } else {
        assert(firing_actions(alerts, notified)[front.len() as int] == wanted);
    }
}

/// An alert that the user was notified of and that is listed no longer is
/// reported as resolved, and the user is notified anew should it come back.
pub proof fn law_resolved_alert_notified(
    before: AppStateView,
    polls: Seq<ServerPollView>,
    heartbeat_name: Seq<char>,
    now: Seq<char>,
    i: int,
)
    requires
        0 <= i < before.active_alerts.len(),
        before.notified_fingerprints.contains(before.active_alerts[i].fingerprint),
        !fingerprints(cycle_state(before, polls, heartbeat_name, now).active_alerts).contains(
            before.active_alerts[i].fingerprint,
        ),
    ensures
        cycle_actions(before, polls, heartbeat_name, now).contains(
            ActionView::Notify(resolved_notification_view(before.active_alerts[i])),
        ),
        !cycle_state(before, polls, heartbeat_name, now).notified_fingerprints.contains(
            before.active_alerts[i].fingerprint,
        ),
{
    let cycle = gathered(polls, heartbeat_name, now, before.server_statuses);
    let head = connection_actions(
        all_down(polls.len(), cycle.failed),
        before.all_down_notified,
    );
    let mid = resolved_actions(
        before.active_alerts,
        fingerprints(cycle.alerts),
        before.notified_fingerprints,
    );
    let actions = cycle_actions(before, polls, heartbeat_name, now);
    lemma_resolved_contains(
        before.active_alerts,
        fingerprints(cycle.alerts),
        before.notified_fingerprints,
        i,
    );
    let wanted = ActionView::Notify(resolved_notification_view(before.active_alerts[i]));
    let j = choose|j: int| 0 <= j < mid.len() && mid[j] == wanted;
    assert(actions[head.len() + 1 + j] == wanted);
}

proof fn lemma_resolved_contains(
    alerts: Seq<AlertView>,
    now_firing: Set<Seq<char>>,
    notified: Set<Seq<char>>,
    i: int,
)
    requires
        0 <= i < alerts.len(),
        went_away(alerts[i], now_firing, notified),
    ensures
        resolved_actions(alerts, now_firing, notified).contains(
            ActionView::Notify(resolved_notification_view(alerts[i])),
        ),
    decreases alerts.len(),
{
    let wanted = ActionView::Notify(resolved_notification_view(alerts[i]));
    let front = resolved_actions(alerts.drop_last(), now_firing, notified);
    if i < alerts.len() - 1 {
        lemma_resolved_contains(alerts.drop_last(), now_firing, notified, i);
        let j = choose|j: int| 0 <= j < front.len() && front[j] == wanted;
        assert(resolved_actions(alerts, now_firing, notified)[j] == wanted);
    } else {
        assert(resolved_actions(alerts, now_firing, notified)[front.len() as int] == wanted);
    }
}

/// While the same alerts keep firing and the connection stays as it is, the
/// user is notified of nothing: each cycle only shows the tray.
pub proof fn law_steady_state_is_quiet(
    before: AppStateView,
    polls: Seq<ServerPollView>,
    heartbeat_name: Seq<char>,
    now: Seq<char>,
)
    requires
        consistent(before),
        fingerprints(cycle_state(before, polls, heartbeat_name, now).active_alerts) == fingerprints(
            before.active_alerts,
        ),
        cycle_state(before, polls, heartbeat_name, now).all_down_notified
            == before.all_down_notified,
    ensures
        cycle_actions(before, polls, heartbeat_name, now).len() == 1,
        cycle_actions(before, polls, heartbeat_name, now)[0] is ShowTray,
{
    let cycle = gathered(polls, heartbeat_name, now, before.server_statuses);
    lemma_nothing_resolved(
        before.active_alerts,
        fingerprints(cycle.alerts),
        before.notified_fingerprints,
    );
    lemma_nothing_new(cycle.alerts, before.notified_fingerprints);
}

/// A cycle in which the servers answer as in the one before, at whatever time,
/// notifies of nothing: it shows the tray as before, and the listed alerts, the
/// errors, what the user knows and the configuration stay.
pub proof fn law_repeated_cycle_is_quiet(
    before: AppStateView,
    polls: Seq<ServerPollView>,
    heartbeat_name: Seq<char>,
    first: Seq<char>,
    second: Seq<char>,
)
    ensures
        ({
            let once = cycle_state(before, polls, heartbeat_name, first);
            let twice = cycle_state(once, polls, heartbeat_name, second);
            let actions = cycle_actions(once, polls, heartbeat_name, second);
            &&& actions == seq![
                ActionView::ShowTray {
                    has_error: gathered(
                        polls,
                        heartbeat_name,
                        first,
                        before.server_statuses,
                    ).failed > 0 || any_critical(once.active_alerts),
                },
            ]
            &&& cycle_actions(before, polls, heartbeat_name, first).contains(actions[0])
            &&& twice == AppStateView { server_statuses: twice.server_statuses, ..once }
        }),
{
    let once = cycle_state(before, polls, heartbeat_name, first);
    let actions = cycle_actions(once, polls, heartbeat_name, second);
    let cycle = gathered(polls, heartbeat_name, first, before.server_statuses);
    lemma_time_does_not_matter(
        polls,
        heartbeat_name,
        first,
        before.server_statuses,
        second,
        once.server_statuses,
    );
    law_cycle_makes_consistent(before, polls, heartbeat_name, first);
    law_steady_state_is_quiet(once, polls, heartbeat_name, second);
    law_every_action_explained(once, polls, heartbeat_name, second, 0);
    let head = connection_actions(all_down(polls.len(), cycle.failed), before.all_down_notified);
    assert(cycle_actions(before, polls, heartbeat_name, first)[head.len() as int] == actions[0]);
}

/// What a cycle gathers, but for the statuses, depends neither on its time nor
/// on how the servers stood before.
proof fn lemma_time_does_not_matter(
    polls: Seq<ServerPollView>,
    heartbeat_name: Seq<char>,
    now: Seq<char>,
    previous: Map<Seq<char>, ServerStatusView>,
    other_now: Seq<char>,
    other_previous: Map<Seq<char>, ServerStatusView>,
)
    ensures
        ({
            let a = gathered(polls, heartbeat_name, now, previous);
            let b = gathered(polls, heartbeat_name, other_now, other_previous);
            a.alerts == b.alerts && a.errors == b.errors && a.failed == b.failed
        }),
    decreases polls.len(),
{
    if polls.len() > 0 {
        lemma_time_does_not_matter(
            polls.drop_last(),
            heartbeat_name,
            now,
            previous,
            other_now,
            other_previous,
        );
    }
}

proof fn lemma_nothing_resolved(
    alerts: Seq<AlertView>,
    now_firing: Set<Seq<char>>,
    notified: Set<Seq<char>>,
)
    requires
        fingerprints(alerts).subset_of(now_firing),
    ensures
        resolved_actions(alerts, now_firing, notified).len() == 0,
    decreases alerts.len(),
{
    if alerts.len() > 0 {
        lemma_front_fingerprints(alerts);
        lemma_nothing_resolved(alerts.drop_last(), now_firing, notified);
    }
}

proof fn lemma_nothing_new(alerts: Seq<AlertView>, notified: Set<Seq<char>>)
    requires
        fingerprints(alerts).subset_of(notified),
    ensures
        firing_actions(alerts, notified).len() == 0,
    decreases alerts.len(),
{
    if alerts.len() > 0 {
        lemma_front_fingerprints(alerts);
        lemma_nothing_new(alerts.drop_last(), notified);
    }
}

/// The user hears once that every server is down and once that one is back:
/// that comes first, before the tray, and only when it changed since the last
/// cycle.
pub proof fn law_connection_told_once(
    before: AppStateView,
    polls: Seq<ServerPollView>,
    heartbeat_name: Seq<char>,
    now: Seq<char>,
)
    ensures
        ({
            let after = cycle_state(before, polls, heartbeat_name, now);
            let actions = cycle_actions(before, polls, heartbeat_name, now);
            let down = after.all_down_notified;
            let told = before.all_down_notified;
            &&& down == all_down(
                polls.len(),
                gathered(polls, heartbeat_name, now, before.server_statuses).failed,
            )
            &&& down == told ==> actions.len() >= 1 && actions[0] is ShowTray
            &&& down && !told ==> actions.len() >= 2 && actions[0] == ActionView::Notify(
                connection_lost_view(),
            ) && actions[1] is ShowTray
            &&& !down && told ==> actions.len() >= 2 && actions[0] == ActionView::Notify(
                connection_restored_view(),
            ) && actions[1] is ShowTray
        }),
{
}

/// The notification says that the connection was lost or restored, and it was.
pub open spec fn about_connection(
    n: NotificationView,
    before: AppStateView,
    after: AppStateView,
) -> bool {
    ||| n == connection_lost_view() && !before.all_down_notified && after.all_down_notified
    ||| n == connection_restored_view() && before.all_down_notified && !after.all_down_notified
}

/// The notification is of the listed alert number `j`, which is new to the
/// user.
pub open spec fn about_new_alert(
    n: NotificationView,
    before: AppStateView,
    after: AppStateView,
    j: int,
) -> bool {
    &&& 0 <= j < after.active_alerts.len()
    &&& !before.notified_fingerprints.contains(after.active_alerts[j].fingerprint)
    &&& n == firing_notification_view(after.active_alerts[j])
}

/// The notification is of the formerly listed alert number `j`, which the user
/// knows and which is listed no longer.
pub open spec fn about_resolved_alert(
    n: NotificationView,
    before: AppStateView,
    after: AppStateView,
    j: int,
) -> bool {
    &&& 0 <= j < before.active_alerts.len()
    &&& went_away(
        before.active_alerts[j],
        fingerprints(after.active_alerts),
        before.notified_fingerprints,
    )
    &&& n == resolved_notification_view(before.active_alerts[j])
}

/// Every action has its reason: the tray shows an error exactly if a poll went
/// wrong or a listed alert is critical, and each notification is about the
/// connection, a new alert or a resolved one.
pub proof fn law_every_action_explained(
    before: AppStateView,
    polls: Seq<ServerPollView>,
    heartbeat_name: Seq<char>,
    now: Seq<char>,
    i: int,
)
    requires
        0 <= i < cycle_actions(before, polls, heartbeat_name, now).len(),
    ensures
        ({
            let after = cycle_state(before, polls, heartbeat_name, now);
            match cycle_actions(before, polls, heartbeat_name, now)[i] {
                ActionView::ShowTray { has_error } => has_error == (gathered(
                    polls,
                    heartbeat_name,
                    now,
                    before.server_statuses,
                ).failed > 0 || any_critical(after.active_alerts)),
                ActionView::Notify(n) => {
                    ||| about_connection(n, before, after)
                    ||| exists|j: int| about_new_alert(n, before, after, j)
                    ||| exists|j: int| about_resolved_alert(n, before, after, j)
                },
            }
        }),
{
    let after = cycle_state(before, polls, heartbeat_name, now);
    let cycle = gathered(polls, heartbeat_name, now, before.server_statuses);
    let head = connection_actions(
        all_down(polls.len(), cycle.failed),
        before.all_down_notified,
    );
    let mid = resolved_actions(
        before.active_alerts,
        fingerprints(cycle.alerts),
        before.notified_fingerprints,
    );
    let tail = firing_actions(cycle.alerts, before.notified_fingerprints);
    let actions = cycle_actions(before, polls, heartbeat_name, now);
    if i < head.len() {
        assert(actions[i] == head[i]);
    } else if i > head.len() {
        if i < head.len() + 1 + mid.len() {
            let m = i - head.len() - 1;
            assert(actions[i] == mid[m]);
            lemma_resolved_origin(
                before.active_alerts,
                fingerprints(cycle.alerts),
                before.notified_fingerprints,
                m,
            );
            let j = choose|j: int|
                0 <= j < before.active_alerts.len() && went_away(
                    #[trigger] before.active_alerts[j],
                    fingerprints(cycle.alerts),
                    before.notified_fingerprints,
                ) && mid[m] == ActionView::Notify(
                    resolved_notification_view(before.active_alerts[j]),
                );
            assert(about_resolved_alert(actions[i]->Notify_0, before, after, j));
        } else {
            let m = i - head.len() - 1 - mid.len();
            assert(actions[i] == tail[m]);
            lemma_firing_origin(cycle.alerts, before.notified_fingerprints, m);
            let j = choose|j: int|
                0 <= j < cycle.alerts.len() && !before.notified_fingerprints.contains(
                    (#[trigger] cycle.alerts[j]).fingerprint,
                ) && tail[m] == ActionView::Notify(firing_notification_view(cycle.alerts[j]));
            assert(about_new_alert(actions[i]->Notify_0, before, after, j));
        }
    }
}

proof fn lemma_firing_origin(alerts: Seq<AlertView>, notified: Set<Seq<char>>, m: int)
    requires
        0 <= m < firing_actions(alerts, notified).len(),
    ensures
        exists|j: int|
            0 <= j < alerts.len() && !notified.contains((#[trigger] alerts[j]).fingerprint)
                && firing_actions(alerts, notified)[m] == ActionView::Notify(
                firing_notification_view(alerts[j]),
            ),
    decreases alerts.len(),
{
    if alerts.len() > 0 {
        let front_alerts = alerts.drop_last();
        let front = firing_actions(front_alerts, notified);
        if m < front.len() {
            lemma_firing_origin(front_alerts, notified, m);
            let j = choose|j: int|
                0 <= j < front_alerts.len() && !notified.contains(
                    (#[trigger] front_alerts[j]).fingerprint,
                ) && front[m] == ActionView::Notify(firing_notification_view(front_alerts[j]));
            assert(alerts[j] == front_alerts[j]);
        } else {
            assert(alerts[alerts.len() - 1] == alerts.last());
        }
    }
}

proof fn lemma_resolved_origin(
    alerts: Seq<AlertView>,
    now_firing: Set<Seq<char>>,
    notified: Set<Seq<char>>,
    m: int,
)
    requires
        0 <= m < resolved_actions(alerts, now_firing, notified).len(),
    ensures
        exists|j: int|
            0 <= j < alerts.len() && went_away(#[trigger] alerts[j], now_firing, notified)
                && resolved_actions(alerts, now_firing, notified)[m] == ActionView::Notify(
                resolved_notification_view(alerts[j]),
            ),
    decreases alerts.len(),
{
    if alerts.len() > 0 {
        let front_alerts = alerts.drop_last();
        let front = resolved_actions(front_alerts, now_firing, notified);
        if m < front.len() {
            lemma_resolved_origin(front_alerts, now_firing, notified, m);
            let j = choose|j: int|
                0 <= j < front_alerts.len() && went_away(
                    #[trigger] front_alerts[j],
                    now_firing,
                    notified,
                ) && front[m] == ActionView::Notify(resolved_notification_view(front_alerts[j]));
            assert(alerts[j] == front_alerts[j]);
        } else {
            assert(alerts[alerts.len() - 1] == alerts.last());
        }
    }
}

/// The heartbeat alert is not listed in the state.
pub open spec fn free_of_heartbeat(state: AppStateView, heartbeat_name: Seq<char>) -> bool {
    forall|j: int|
        0 <= j < state.active_alerts.len() ==> !heartbeat(
            #[trigger] state.active_alerts[j],
            heartbeat_name,
        )
}

/// The heartbeat alert is never shown: a cycle does not list it, and where it
/// was not listed before, every notification of the cycle is about the
/// connection or about another alert.
pub proof fn law_heartbeat_never_shown(
    before: AppStateView,
    polls: Seq<ServerPollView>,
    heartbeat_name: Seq<char>,
    now: Seq<char>,
)
    ensures
        free_of_heartbeat(cycle_state(before, polls, heartbeat_name, now), heartbeat_name),
        free_of_heartbeat(before, heartbeat_name) ==> forall|i: int|
            #![trigger cycle_actions(before, polls, heartbeat_name, now)[i]]
            0 <= i < cycle_actions(before, polls, heartbeat_name, now).len()
                ==> match cycle_actions(before, polls, heartbeat_name, now)[i] {
                ActionView::ShowTray { has_error } => true,
                ActionView::Notify(n) => {
                    let after = cycle_state(before, polls, heartbeat_name, now);
                    ||| about_connection(n, before, after)
                    ||| exists|j: int|
                        about_new_alert(n, before, after, j) && !heartbeat(
                            after.active_alerts[j],
                            heartbeat_name,
                        )
                    ||| exists|j: int|
                        about_resolved_alert(n, before, after, j) && !heartbeat(
                            before.active_alerts[j],
                            heartbeat_name,
                        )
                },
            },
{
    let after = cycle_state(before, polls, heartbeat_name, now);
    let actions = cycle_actions(before, polls, heartbeat_name, now);
    assert forall|j: int| 0 <= j < after.active_alerts.len() implies !heartbeat(
        #[trigger] after.active_alerts[j],
        heartbeat_name,
    ) by {
        law_heartbeat_never_listed(polls, heartbeat_name, now, before.server_statuses, j);
    }
    if free_of_heartbeat(before, heartbeat_name) {
        assert forall|i: int|
            #![trigger actions[i]]
            0 <= i < actions.len() implies match actions[i] {
            ActionView::ShowTray { has_error } => true,
            ActionView::Notify(n) => {
                ||| about_connection(n, before, after)
                ||| exists|j: int|
                    about_new_alert(n, before, after, j) && !heartbeat(
                        after.active_alerts[j],
                        heartbeat_name,
                    )
                ||| exists|j: int|
                    about_resolved_alert(n, before, after, j) && !heartbeat(
                        before.active_alerts[j],
                        heartbeat_name,
                    )
            },
        } by {
            law_every_action_explained(before, polls, heartbeat_name, now, i);
            if let ActionView::Notify(n) = actions[i] {
                if exists|j: int| about_new_alert(n, before, after, j) {
                    let j = choose|j: int| about_new_alert(n, before, after, j);
                    assert(!heartbeat(after.active_alerts[j], heartbeat_name));
                } else if exists|j: int| about_resolved_alert(n, before, after, j) {
                    let j = choose|j: int| about_resolved_alert(n, before, after, j);
                    assert(!heartbeat(before.active_alerts[j], heartbeat_name));
                }
            }
        }
    }
}

} // verus!

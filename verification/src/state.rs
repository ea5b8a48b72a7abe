//! The state of the monitor, and a polling cycle as a whole.

use vstd::prelude::*;
use crate::alert::Alert;
#[allow(unused_imports)]
use crate::alert::{AlertView, alert_views};
use crate::clock::UtcInstant;
#[allow(unused_imports)]
use crate::clock::rfc3339_text;
use crate::config::{AppConfig, GrafanaServer, copy_servers};
#[allow(unused_imports)]
use crate::config::{AppConfigView, GrafanaServerView, loaded_view, refreshed, server_views};
use crate::notification::{
    Notification,
    connection_lost,
    connection_restored,
    firing_notification,
    resolved_notification,
};
#[allow(unused_imports)]
use crate::notification::{
    NotificationView,
    connection_lost_view,
    connection_restored_view,
    firing_notification_view,
    resolved_notification_view,
};
use crate::poll::{Cycle, Reply, ServerPoll, ServerStatus, gather, read_reply};
#[allow(unused_imports)]
use crate::poll::{
    CycleView,
    ServerPollView,
    ServerStatusView,
    distinct_fingerprints,
    gathered,
    poll_views,
    reply_outcome,
};
use crate::string_map::{StringMap, StringSet};
use crate::text::same_text;

verus! {

/// What the monitor knows between two polling cycles.
#[derive(Debug)]
pub struct AppState {
    pub config: AppConfig,
    /// The fingerprints of the alerts that the user was notified of and that
    /// were still firing.
    pub notified_fingerprints: StringSet,
    /// The alerts to show.
    pub active_alerts: Vec<Alert>,
    /// What went wrong, by server URL.
    pub connection_errors: StringMap<String>,
    /// The user was told that no server could be reached, and not yet that one
    /// could be reached again.
    pub all_down_notified: bool,
    /// How the servers stand, by server URL.
    pub server_statuses: StringMap<ServerStatus>,
}

/// What an [`AppState`] stands for.
#[verifier::ext_equal]
pub struct AppStateView {
    pub config: AppConfigView,
    pub notified_fingerprints: Set<Seq<char>>,
    pub active_alerts: Seq<AlertView>,
    pub connection_errors: Map<Seq<char>, Seq<char>>,
    pub all_down_notified: bool,
    pub server_statuses: Map<Seq<char>, ServerStatusView>,
}

impl View for AppState {
    type V = AppStateView;

    open spec fn view(&self) -> AppStateView {
        AppStateView {
            config: self.config@,
            notified_fingerprints: self.notified_fingerprints@,
            active_alerts: alert_views(self.active_alerts@),
            connection_errors: self.connection_errors@,
            all_down_notified: self.all_down_notified,
            server_statuses: self.server_statuses@,
        }
    }
}

/// The state before the first cycle.
pub open spec fn initial_state(config: AppConfigView) -> AppStateView {
    AppStateView {
        config,
        notified_fingerprints: Set::empty(),
        active_alerts: Seq::empty(),
        connection_errors: Map::empty(),
        all_down_notified: false,
        server_statuses: Map::empty(),
    }
}

/// What a cycle goes by.
#[derive(Debug)]
pub struct CyclePlan {
    /// The servers to poll, in order.
    pub servers: Vec<GrafanaServer>,
    pub heartbeat_alert_name: String,
    /// How long to wait, once the cycle is over, unless the next one is asked
    /// for earlier.
    pub interval_secs: u64,
}

/// What a [`CyclePlan`] stands for.
#[verifier::ext_equal]
pub struct CyclePlanView {
    pub servers: Seq<GrafanaServerView>,
    pub heartbeat_alert_name: Seq<char>,
    pub interval_secs: u64,
}

impl View for CyclePlan {
    type V = CyclePlanView;

    open spec fn view(&self) -> CyclePlanView {
        CyclePlanView {
            servers: server_views(self.servers@),
            heartbeat_alert_name: self.heartbeat_alert_name@,
            interval_secs: self.interval_secs,
        }
    }
}

/// What a cycle goes by under the given configuration.
pub open spec fn cycle_plan(config: AppConfigView) -> CyclePlanView {
    CyclePlanView {
        servers: config.servers,
        heartbeat_alert_name: config.heartbeat_alert_name,
        interval_secs: config.polling_interval_secs,
    }
}

/// The state once the configuration file was looked at: nothing but the
/// configuration may have changed.
pub open spec fn begun_state(before: AppStateView, loaded: Option<AppConfigView>) -> AppStateView {
    AppStateView { config: refreshed(before.config, loaded), ..before }
}

/// What is to be done after a cycle.
#[derive(Debug)]
pub enum Action {
    /// Show a desktop notification.
    Notify(Notification),
    /// Show in the tray whether something is wrong.
    ShowTray { has_error: bool },
}

/// What an [`Action`] stands for.
#[verifier::ext_equal]
pub enum ActionView {
    Notify(NotificationView),
    ShowTray { has_error: bool },
}

impl View for Action {
    type V = ActionView;

    open spec fn view(&self) -> ActionView {
        match self {
            Action::Notify(n) => ActionView::Notify(n@),
            Action::ShowTray { has_error } => ActionView::ShowTray { has_error: *has_error },
        }
    }
}

/// What a list of actions stands for.
pub open spec fn action_views(s: Seq<Action>) -> Seq<ActionView> {
    Seq::new(s.len(), |i: int| s[i]@)
}

/// The fingerprints of the alerts.
pub open spec fn fingerprints(alerts: Seq<AlertView>) -> Set<Seq<char>> {
    Set::new(
        |k: Seq<char>|
            exists|i: int| 0 <= i < alerts.len() && (#[trigger] alerts[i]).fingerprint == k,
    )
}

/// Every listed server was polled and went wrong.
pub open spec fn all_down(total: nat, failed: nat) -> bool {
    total > 0 && failed == total
}

/// What is said about the connection: it was lost or restored since the user
/// was last told.
pub open spec fn connection_actions(down: bool, told_down: bool) -> Seq<ActionView> {
    if down && !told_down {
        seq![ActionView::Notify(connection_lost_view())]
    } else if !down && told_down {
        seq![ActionView::Notify(connection_restored_view())]
    } else {
        Seq::empty()
    }
}

/// The alert is of critical severity.
pub open spec fn critical(alert: AlertView) -> bool {
    alert.labels.contains_key("severity"@) && alert.labels["severity"@] == "critical"@
}

/// One of the alerts is of critical severity.
pub open spec fn any_critical(alerts: Seq<AlertView>) -> bool {
    exists|i: int| 0 <= i < alerts.len() && critical(#[trigger] alerts[i])
}

/// The alert is one that the user was notified of and that fires no longer.
pub open spec fn went_away(
    alert: AlertView,
    now_firing: Set<Seq<char>>,
    notified: Set<Seq<char>>,
) -> bool {
    !now_firing.contains(alert.fingerprint) && notified.contains(alert.fingerprint)
}

/// The notifications of the alerts that went away, in order.
pub open spec fn resolved_actions(
    alerts: Seq<AlertView>,
    now_firing: Set<Seq<char>>,
    notified: Set<Seq<char>>,
) -> Seq<ActionView>
    decreases alerts.len(),
{
    if alerts.len() == 0 {
        Seq::empty()
    } else {
        let front = resolved_actions(alerts.drop_last(), now_firing, notified);
        if went_away(alerts.last(), now_firing, notified) {
            front.push(ActionView::Notify(resolved_notification_view(alerts.last())))
        } else {
            front
        }
    }
}

/// The notifications of the alerts that the user does not know of, in order.
pub open spec fn firing_actions(alerts: Seq<AlertView>, notified: Set<Seq<char>>) -> Seq<ActionView>
    decreases alerts.len(),
{
    if alerts.len() == 0 {
        Seq::empty()
    } else {
        let front = firing_actions(alerts.drop_last(), notified);
        if notified.contains(alerts.last().fingerprint) {
            front
        } else {
            front.push(ActionView::Notify(firing_notification_view(alerts.last())))
        }
    }
}

/// The state after a cycle over `total` servers.
pub open spec fn concluded_state(
    before: AppStateView,
    cycle: CycleView,
    total: nat,
) -> AppStateView {
    AppStateView {
        config: before.config,
        notified_fingerprints: fingerprints(cycle.alerts),
        active_alerts: cycle.alerts,
        connection_errors: cycle.errors,
        all_down_notified: all_down(total, cycle.failed),
        server_statuses: cycle.statuses,
    }
}

/// What is done after a cycle over `total` servers: the user hears of the
/// connection, sees the tray, and hears of the alerts that went away and then
/// of the new ones.
pub open spec fn concluded_actions(
    before: AppStateView,
    cycle: CycleView,
    total: nat,
) -> Seq<ActionView> {
    connection_actions(all_down(total, cycle.failed), before.all_down_notified) + seq![
        ActionView::ShowTray { has_error: cycle.failed > 0 || any_critical(cycle.alerts) },
    ] + resolved_actions(
        before.active_alerts,
        fingerprints(cycle.alerts),
        before.notified_fingerprints,
    ) + firing_actions(cycle.alerts, before.notified_fingerprints)
}

/// Tells whether one of the alerts is of critical severity.
fn has_critical(alerts: &Vec<Alert>) -> (r: bool)
    ensures
        r == any_critical(alert_views(alerts@)),
{
    let ghost all = alert_views(alerts@);
    for i in 0..alerts.len()
        invariant
            all == alert_views(alerts@),
            forall|k: int| 0 <= k < i ==> !critical(#[trigger] all[k]),
    {
        if let Some(severity) = alerts[i].labels.get("severity") {
            if same_text(severity.as_str(), "critical") {
                assert(critical(all[i as int]));
                return true;
            }
        }
        assert(!critical(all[i as int]));
    }
    false
}

/// Collects the fingerprints of the alerts.
fn fingerprint_set(alerts: &Vec<Alert>) -> (r: StringSet)
    ensures
        r@ == fingerprints(alert_views(alerts@)),
{
    let mut set = StringSet::new();
    let ghost all = alert_views(alerts@);
    assert(set@ =~= fingerprints(all.take(0)));
    for i in 0..alerts.len()
        invariant
            all == alert_views(alerts@),
            set@ == fingerprints(all.take(i as int)),
    {
        set.insert(alerts[i].fingerprint.clone());
        proof {
            lemma_fingerprints_next(all, i as int);
        }
    }
    assert(all.take(alerts@.len() as int) == all);
    set
}

/// One more alert adds its fingerprint.
proof fn lemma_fingerprints_next(alerts: Seq<AlertView>, i: int)
    requires
        0 <= i < alerts.len(),
    ensures
        fingerprints(alerts.take(i + 1)) == fingerprints(alerts.take(i)).insert(
            alerts[i].fingerprint,
        ),
{
    let before = alerts.take(i);
    let after = alerts.take(i + 1);
    assert forall|k: Seq<char>|
        fingerprints(after).contains(k) <==> fingerprints(before).insert(
            alerts[i].fingerprint,
        ).contains(k) by {
        if fingerprints(after).contains(k) {
            let j = choose|j: int| 0 <= j < after.len() && (#[trigger] after[j]).fingerprint == k;
            if j < i {
                assert(before[j].fingerprint == k);
            }
        }
        if fingerprints(before).contains(k) {
            let j = choose|j: int| 0 <= j < before.len() && (#[trigger] before[j]).fingerprint == k;
            assert(after[j].fingerprint == k);
        }
        assert(after[i].fingerprint == alerts[i].fingerprint);
    }
    assert(fingerprints(after) =~= fingerprints(before).insert(alerts[i].fingerprint));
}

/// Adds an action to a list.
proof fn lemma_action_pushed(before: Seq<Action>, action: Action)
    ensures
        action_views(before.push(action)) == action_views(before).push(action@),
{
    assert(action_views(before.push(action)) =~= action_views(before).push(action@));
}

/// Notifies of the alerts that went away.
fn notify_resolved(
    actions: &mut Vec<Action>,
    alerts: &Vec<Alert>,
    now_firing: &StringSet,
    notified: &StringSet,
)
    ensures
        action_views(final(actions)@) == action_views(old(actions)@) + resolved_actions(
            alert_views(alerts@),
            now_firing@,
            notified@,
        ),
{
    let ghost start = action_views(actions@);
    let ghost all = alert_views(alerts@);
    assert(start + Seq::<ActionView>::empty() =~= start);
    for i in 0..alerts.len()
        invariant
            all == alert_views(alerts@),
            action_views(actions@) == start + resolved_actions(
                all.take(i as int),
                now_firing@,
                notified@,
            ),
    {
        assert(all.take(i + 1).drop_last() == all.take(i as int));
        assert(all.take(i + 1).last() == alerts@[i as int]@);
        let fingerprint = alerts[i].fingerprint.as_str();
        if !now_firing.contains(fingerprint) && notified.contains(fingerprint) {
            let action = Action::Notify(resolved_notification(&alerts[i]));
            proof {
                lemma_action_pushed(actions@, action);
            }
            actions.push(action);
            assert(action_views(actions@) =~= start + resolved_actions(
                all.take(i + 1),
                now_firing@,
                notified@,
            ));
        }
    }
    assert(all.take(alerts@.len() as int) == all);
}

/// Notifies of the alerts that the user does not know of, and takes note of
/// them.
fn notify_firing(actions: &mut Vec<Action>, alerts: &Vec<Alert>, notified: &mut StringSet)
    requires
        distinct_fingerprints(alert_views(alerts@)),
    ensures
        action_views(final(actions)@) == action_views(old(actions)@) + firing_actions(
            alert_views(alerts@),
            old(notified)@,
        ),
        final(notified)@ == old(notified)@.union(fingerprints(alert_views(alerts@))),
{
    let ghost start = action_views(actions@);
    let ghost known = notified@;
    let ghost all = alert_views(alerts@);
    assert(start + Seq::<ActionView>::empty() =~= start);
    assert(known =~= known.union(fingerprints(all.take(0))));
    for i in 0..alerts.len()
        invariant
            all == alert_views(alerts@),
            distinct_fingerprints(all),
            action_views(actions@) == start + firing_actions(all.take(i as int), known),
            notified@ == known.union(fingerprints(all.take(i as int))),
    {
        assert(all.take(i + 1).drop_last() == all.take(i as int));
        assert(all.take(i + 1).last() == alerts@[i as int]@);
        proof {
            lemma_fingerprints_next(all, i as int);
            assert(!fingerprints(all.take(i as int)).contains(all[i as int].fingerprint)) by {
                assert forall|j: int| 0 <= j < i implies (
                #[trigger] all.take(i as int)[j]).fingerprint != all[i as int].fingerprint by {
                    assert(all[j].fingerprint != all[i as int].fingerprint);
                }
            }
        }
        if !notified.contains(alerts[i].fingerprint.as_str()) {
            let action = Action::Notify(firing_notification(&alerts[i]));
            proof {
                lemma_action_pushed(actions@, action);
            }
            actions.push(action);
            notified.insert(alerts[i].fingerprint.clone());
            assert(action_views(actions@) =~= start + firing_actions(all.take(i + 1), known));
        }
        assert(notified@ =~= known.union(fingerprints(all.take(i + 1))));
    }
    assert(all.take(alerts@.len() as int) == all);
}

/// The fingerprints of the alerts are those of all but the last, and that of
/// the last.
pub proof fn lemma_front_fingerprints(alerts: Seq<AlertView>)
    requires
        alerts.len() > 0,
    ensures
        fingerprints(alerts.drop_last()).subset_of(fingerprints(alerts)),
        fingerprints(alerts).contains(alerts.last().fingerprint),
{
    let front = alerts.drop_last();
    assert forall|k: Seq<char>| fingerprints(front).contains(k) implies fingerprints(
        alerts,
    ).contains(k) by {
        let j = choose|j: int| 0 <= j < front.len() && (#[trigger] front[j]).fingerprint == k;
        assert(alerts[j].fingerprint == k);
    }
    assert(alerts[alerts.len() - 1].fingerprint == alerts.last().fingerprint);
}

/// The alerts that are firing now are the only ones that stay known, so that
/// being known before makes the same difference.
proof fn lemma_known_firing(alerts: Seq<AlertView>, firing_set: Set<Seq<char>>, notified: Set<Seq<char>>)
    requires
        fingerprints(alerts).subset_of(firing_set),
    ensures
        firing_actions(alerts, notified.intersect(firing_set)) == firing_actions(alerts, notified),
    decreases alerts.len(),
{
    if alerts.len() > 0 {
        lemma_front_fingerprints(alerts);
        lemma_known_firing(alerts.drop_last(), firing_set, notified);
    }
}

impl AppState {
    /// The state before the first cycle.
    pub fn new(config: AppConfig) -> (r: AppState)
        ensures
            r@ == initial_state(config@),
    {
        let r = AppState {
            config,
            notified_fingerprints: StringSet::new(),
            active_alerts: Vec::new(),
            connection_errors: StringMap::new(),
            all_down_notified: false,
            server_statuses: StringMap::new(),
        };
        assert(r@.active_alerts =~= Seq::empty());
        r
    }

    /// Begins a cycle: takes over the configuration on disk, where one could
    /// be read, and says what the cycle goes by.
    pub fn begin_cycle(&mut self, loaded: Option<AppConfig>) -> (r: CyclePlan)
        ensures
            final(self)@ == begun_state(old(self)@, loaded_view(loaded)),
            r@ == cycle_plan(final(self)@.config),
    {
        self.config.refresh(loaded);
        CyclePlan {
            servers: copy_servers(&self.config.servers),
            heartbeat_alert_name: self.config.heartbeat_alert_name.clone(),
            interval_secs: self.config.polling_interval_secs,
        }
    }

    /// Takes over what a cycle over `total` servers gathered, and says what is
    /// to be done.
    fn conclude(&mut self, cycle: Cycle, total: usize) -> (r: Vec<Action>)
        requires
            distinct_fingerprints(cycle@.alerts),
        ensures
            final(self)@ == concluded_state(old(self)@, cycle@, total as nat),
            action_views(r@) == concluded_actions(old(self)@, cycle@, total as nat),
    {
        let ghost gathered_alerts = cycle@.alerts;
        let mut actions: Vec<Action> = Vec::new();
        let down = total > 0 && cycle.failed == total;
        if down && !self.all_down_notified {
            actions.push(Action::Notify(connection_lost()));
        } else if !down && self.all_down_notified {
            actions.push(Action::Notify(connection_restored()));
        }
        assert(action_views(actions@) =~= connection_actions(
            all_down(total as nat, cycle@.failed),
            old(self)@.all_down_notified,
        ));
        let has_error = cycle.failed > 0 || has_critical(&cycle.alerts);
        let ghost said = action_views(actions@);
        actions.push(Action::ShowTray { has_error });
        assert(action_views(actions@) =~= said + seq![ActionView::ShowTray { has_error }]);

        let now_firing = fingerprint_set(&cycle.alerts);
        notify_resolved(
            &mut actions,
            &self.active_alerts,
            &now_firing,
            &self.notified_fingerprints,
        );
        self.notified_fingerprints.retain_in(&now_firing);
        notify_firing(&mut actions, &cycle.alerts, &mut self.notified_fingerprints);
        proof {
            lemma_known_firing(gathered_alerts, now_firing@, old(self)@.notified_fingerprints);
            assert(self.notified_fingerprints@ =~= fingerprints(gathered_alerts));
        }
        self.connection_errors = cycle.errors;
        self.server_statuses = cycle.statuses;
        self.all_down_notified = down;
        self.active_alerts = cycle.alerts;
        actions
    }

    /// Runs the cycle in which the polls amounted to what is given. `now` is
    /// the time of the cycle as text.
    pub fn apply_polls(
        &mut self,
        polls: &Vec<ServerPoll>,
        heartbeat_alert_name: &str,
        now: &str,
    ) -> (r: Vec<Action>)
        ensures
            final(self)@ == cycle_state(old(self)@, poll_views(polls@), heartbeat_alert_name@, now@),
            action_views(r@) == cycle_actions(
                old(self)@,
                poll_views(polls@),
                heartbeat_alert_name@,
                now@,
            ),
    {
        let cycle = gather(polls, heartbeat_alert_name, now, &self.server_statuses);
        self.conclude(cycle, polls.len())
    }
}

/// The state after a cycle with the given polls.
pub open spec fn cycle_state(
    before: AppStateView,
    polls: Seq<ServerPollView>,
    heartbeat_name: Seq<char>,
    now: Seq<char>,
) -> AppStateView {
    concluded_state(
        before,
        gathered(polls, heartbeat_name, now, before.server_statuses),
        polls.len(),
    )
}

/// What is done after a cycle with the given polls.
pub open spec fn cycle_actions(
    before: AppStateView,
    polls: Seq<ServerPollView>,
    heartbeat_name: Seq<char>,
    now: Seq<char>,
) -> Seq<ActionView> {
    concluded_actions(
        before,
        gathered(polls, heartbeat_name, now, before.server_statuses),
        polls.len(),
    )
}

/// A server and its reply, if a request was sent to it.
#[derive(Debug)]
pub struct ServerReply {
    pub server: GrafanaServer,
    pub reply: Option<Reply>,
}

/// What the replies amount to.
pub open spec fn reply_polls(replies: Seq<ServerReply>) -> Seq<ServerPollView> {
    Seq::new(
        replies.len(),
        |i: int|
            ServerPollView {
                url: replies[i].server.url@,
                outcome: match replies[i].reply {
                    Some(reply) => Some(reply_outcome(reply)),
                    None => None,
                },
            },
    )
}

/// Runs a polling cycle that started at `now`, once the replies of all the
/// servers are in.
pub fn run_polling_cycle(
    state: &mut AppState,
    replies: &Vec<ServerReply>,
    heartbeat_alert_name: &str,
    now: &UtcInstant,
) -> (r: Vec<Action>)
    requires
        now.valid(),
    ensures
        final(state)@ == cycle_state(
            old(state)@,
            reply_polls(replies@),
            heartbeat_alert_name@,
            rfc3339_text(now.secs, now.nanos),
        ),
        action_views(r@) == cycle_actions(
            old(state)@,
            reply_polls(replies@),
            heartbeat_alert_name@,
            rfc3339_text(now.secs, now.nanos),
        ),
{
    let mut polls: Vec<ServerPoll> = Vec::new();
    for i in 0..replies.len()
        invariant
            polls@.len() == i,
            forall|k: int| 0 <= k < i ==> (#[trigger] polls@[k])@ == reply_polls(replies@)[k],
    {
        let outcome = match &replies[i].reply {
            Some(reply) => Some(read_reply(reply)),
            None => None,
        };
        polls.push(ServerPoll { server: replies[i].server.clone(), outcome });
    }
    assert(poll_views(polls@) =~= reply_polls(replies@));
    let now_text = now.to_rfc3339();
    state.apply_polls(&polls, heartbeat_alert_name, now_text.as_str())
}

} // verus!

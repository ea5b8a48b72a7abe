//! One polling cycle, first half: what the servers replied, merged.

use vstd::prelude::*;
use crate::alert::{
    Alert,
    alerts_contain_firing_heartbeat,
    copy_optional,
    is_firing,
    is_heartbeat_alert,
    parse_alerts_lenient,
};
#[allow(unused_imports)]
use crate::alert::{
    AlertView,
    alert_views,
    firing,
    heartbeat,
    heartbeat_fires,
    lenient_alerts,
    optional_text,
};
use crate::config::GrafanaServer;
#[allow(unused_imports)]
use crate::json::{JsonView, json_value};
use crate::string_map::StringMap;
use crate::text::{is_blank, join, trim_trailing_slashes};
#[allow(unused_imports)]
use crate::text::{blank, without_trailing_slashes};

verus! {

/// How a server stands after it was polled.
#[derive(Debug)]
pub struct ServerStatus {
    pub url: String,
    /// The server listed its alerts.
    pub reachable: bool,
    /// The heartbeat alert was among them, firing.
    pub heartbeat_ok: bool,
    /// The server is reachable and the heartbeat, where one is asked for, came.
    pub connected: bool,
    pub last_heartbeat_at: Option<String>,
    pub last_error: Option<String>,
    pub checked_at: String,
}

/// What a [`ServerStatus`] stands for.
#[verifier::ext_equal]
pub struct ServerStatusView {
    pub url: Seq<char>,
    pub reachable: bool,
    pub heartbeat_ok: bool,
    pub connected: bool,
    pub last_heartbeat_at: Option<Seq<char>>,
    pub last_error: Option<Seq<char>>,
    pub checked_at: Seq<char>,
}

impl View for ServerStatus {
    type V = ServerStatusView;

    open spec fn view(&self) -> ServerStatusView {
        ServerStatusView {
            url: self.url@,
            reachable: self.reachable,
            heartbeat_ok: self.heartbeat_ok,
            connected: self.connected,
            last_heartbeat_at: optional_text(self.last_heartbeat_at),
            last_error: optional_text(self.last_error),
            checked_at: self.checked_at@,
        }
    }
}

impl Clone for ServerStatus {
    fn clone(&self) -> (r: Self)
        ensures
            r@ == self@,
    {
        ServerStatus {
            url: self.url.clone(),
            reachable: self.reachable,
            heartbeat_ok: self.heartbeat_ok,
            connected: self.connected,
            last_heartbeat_at: copy_optional(&self.last_heartbeat_at),
            last_error: copy_optional(&self.last_error),
            checked_at: self.checked_at.clone(),
        }
    }
}

/// What came back for the request to a server.
#[derive(Debug)]
pub enum Reply {
    /// No response, for the given reason.
    ConnectionFailed(String),
    /// A response without success, with the given status.
    HttpError(String),
    /// A successful response whose body could not be read.
    Unreadable,
    /// The body of a successful response.
    Body(String),
}

/// What a reply amounts to: the alerts in it, or what went wrong.
pub open spec fn reply_outcome(reply: Reply) -> Result<Seq<AlertView>, Seq<char>> {
    match reply {
        Reply::ConnectionFailed(reason) => Err("Connection Error: "@ + reason@),
        Reply::HttpError(status) => Err("HTTP Error: "@ + status@),
        Reply::Unreadable => Err("JSON Parsing Error"@),
        Reply::Body(body) => match json_value(body@) {
            Some(JsonView::Array(items)) => Ok(lenient_alerts(items)),
            _ => Err("JSON Parsing Error"@),
        },
    }
}

/// What an outcome stands for.
pub open spec fn outcome_view(outcome: Result<Vec<Alert>, String>) -> Result<
    Seq<AlertView>,
    Seq<char>,
> {
    match outcome {
        Ok(alerts) => Ok(alert_views(alerts@)),
        Err(message) => Err(message@),
    }
}

/// Reads a reply.
pub fn read_reply(reply: &Reply) -> (r: Result<Vec<Alert>, String>)
    ensures
        outcome_view(r) == reply_outcome(*reply),
{
    match reply {
        Reply::ConnectionFailed(reason) => Err(join("Connection Error: ", reason.as_str())),
        Reply::HttpError(status) => Err(join("HTTP Error: ", status.as_str())),
        Reply::Unreadable => Err("JSON Parsing Error".to_owned()),
        Reply::Body(body) => match parse_alerts_lenient(body.as_str()) {
            Ok(alerts) => Ok(alerts),
            Err(_) => Err("JSON Parsing Error".to_owned()),
        },
    }
}

/// A server and what polling it amounted to, if it was polled.
#[derive(Debug)]
pub struct ServerPoll {
    pub server: GrafanaServer,
    pub outcome: Option<Result<Vec<Alert>, String>>,
}

/// What a [`ServerPoll`] stands for.
pub struct ServerPollView {
    pub url: Seq<char>,
    pub outcome: Option<Result<Seq<AlertView>, Seq<char>>>,
}

impl View for ServerPoll {
    type V = ServerPollView;

    open spec fn view(&self) -> ServerPollView {
        ServerPollView {
            url: self.server.url@,
            outcome: match self.outcome {
                Some(outcome) => Some(outcome_view(outcome)),
                None => None,
            },
        }
    }
}

/// What a list of polls stands for.
pub open spec fn poll_views(s: Seq<ServerPoll>) -> Seq<ServerPollView> {
    Seq::new(s.len(), |i: int| s[i]@)
}

/// The server is connected: it was reached, and the heartbeat fires there
/// unless its name is blank.
pub open spec fn connected(reachable: bool, heartbeat_seen: bool, heartbeat_name: Seq<char>) -> bool {
    reachable && (heartbeat_seen || blank(heartbeat_name))
}

/// Tells whether a server counts as connected.
pub fn is_connected(reachable: bool, heartbeat_seen: bool, heartbeat_alert_name: &str) -> (r: bool)
    ensures
        r == connected(reachable, heartbeat_seen, heartbeat_alert_name@),
{
    reachable && (heartbeat_seen || is_blank(heartbeat_alert_name))
}

/// The list with `alert` in it: in the place of the one with the same
/// fingerprint, or else at the end.
pub open spec fn merged_in(alerts: Seq<AlertView>, alert: AlertView) -> Seq<AlertView> {
    if exists|i: int|
        0 <= i < alerts.len() && (#[trigger] alerts[i]).fingerprint == alert.fingerprint {
        Seq::new(
            alerts.len(),
            |i: int|
                if alerts[i].fingerprint == alert.fingerprint {
                    alert
                } else {
                    alerts[i]
                },
        )
    } else {
        alerts.push(alert)
    }
}

/// An alert that is shown to the user: one that fires and is not the heartbeat.
pub open spec fn shown(alert: AlertView, heartbeat_name: Seq<char>) -> bool {
    firing(alert) && !heartbeat(alert, heartbeat_name)
}

/// The alert, marked with the server that it came from.
pub open spec fn stamped(alert: AlertView, source: Seq<char>) -> AlertView {
    AlertView { source_url: Some(source), ..alert }
}

/// The list with the alerts of one server that are to be shown merged in.
pub open spec fn with_alerts(
    shown_alerts: Seq<AlertView>,
    alerts: Seq<AlertView>,
    heartbeat_name: Seq<char>,
    source: Seq<char>,
) -> Seq<AlertView>
    decreases alerts.len(),
{
    if alerts.len() == 0 {
        shown_alerts
    } else {
        let front = with_alerts(shown_alerts, alerts.drop_last(), heartbeat_name, source);
        if shown(alerts.last(), heartbeat_name) {
            merged_in(front, stamped(alerts.last(), source))
        } else {
            front
        }
    }
}

/// What a polling cycle has gathered.
#[verifier::ext_equal]
pub struct CycleView {
    /// The alerts to show, each fingerprint once.
    pub alerts: Seq<AlertView>,
    /// What went wrong, by server URL.
    pub errors: Map<Seq<char>, Seq<char>>,
    /// How the servers stand, by server URL.
    pub statuses: Map<Seq<char>, ServerStatusView>,
    /// How many polls went wrong.
    pub failed: nat,
}

/// A cycle that has gathered nothing yet.
pub open spec fn empty_cycle() -> CycleView {
    CycleView { alerts: Seq::empty(), errors: Map::empty(), statuses: Map::empty(), failed: 0 }
}

/// The server was polled. One whose URL is nothing but slashes is passed over.
pub open spec fn polled(poll: ServerPollView) -> bool {
    without_trailing_slashes(poll.url).len() > 0 && poll.outcome is Some
}

/// The heartbeat fires among the alerts of the outcome.
pub open spec fn outcome_heartbeat(
    outcome: Result<Seq<AlertView>, Seq<char>>,
    heartbeat_name: Seq<char>,
) -> bool {
    match outcome {
        Ok(alerts) => heartbeat_fires(alerts, heartbeat_name),
        Err(_) => false,
    }
}

/// When the heartbeat of a server last came, as known before.
pub open spec fn known_heartbeat(
    previous: Map<Seq<char>, ServerStatusView>,
    url: Seq<char>,
) -> Option<Seq<char>> {
    if previous.contains_key(url) {
        previous[url].last_heartbeat_at
    } else {
        None
    }
}

/// How a server stands after a poll at `now`.
pub open spec fn status_after(
    url: Seq<char>,
    outcome: Result<Seq<AlertView>, Seq<char>>,
    heartbeat_name: Seq<char>,
    now: Seq<char>,
    previous: Map<Seq<char>, ServerStatusView>,
) -> ServerStatusView {
    let heartbeat_seen = outcome_heartbeat(outcome, heartbeat_name);
    ServerStatusView {
        url,
        reachable: outcome is Ok,
        heartbeat_ok: heartbeat_seen,
        connected: connected(outcome is Ok, heartbeat_seen, heartbeat_name),
        last_heartbeat_at: if heartbeat_seen {
            Some(now)
        } else {
            known_heartbeat(previous, url)
        },
        last_error: match outcome {
            Ok(_) => None,
            Err(message) => Some(message),
        },
        checked_at: now,
    }
}

/// What the cycle has gathered once one more server was polled.
pub open spec fn cycle_step(
    cycle: CycleView,
    poll: ServerPollView,
    heartbeat_name: Seq<char>,
    now: Seq<char>,
    previous: Map<Seq<char>, ServerStatusView>,
) -> CycleView {
    if !polled(poll) {
        cycle
    } else {
        let outcome = poll.outcome->0;
        let status = status_after(poll.url, outcome, heartbeat_name, now, previous);
        let statuses = cycle.statuses.insert(poll.url, status);
        match outcome {
            Ok(alerts) => CycleView {
                alerts: with_alerts(
                    cycle.alerts,
                    alerts,
                    heartbeat_name,
                    without_trailing_slashes(poll.url),
                ),
                statuses,
                ..cycle
            },
            Err(message) => CycleView {
                errors: cycle.errors.insert(poll.url, message),
                statuses,
                failed: cycle.failed + 1,
                ..cycle
            },
        }
    }
}

/// What a cycle gathers from its polls, in order.
pub open spec fn gathered(
    polls: Seq<ServerPollView>,
    heartbeat_name: Seq<char>,
    now: Seq<char>,
    previous: Map<Seq<char>, ServerStatusView>,
) -> CycleView
    decreases polls.len(),
{
    if polls.len() == 0 {
        empty_cycle()
    } else {
        cycle_step(
            gathered(polls.drop_last(), heartbeat_name, now, previous),
            polls.last(),
            heartbeat_name,
            now,
            previous,
        )
    }
}

/// No two alerts have the same fingerprint.
pub open spec fn distinct_fingerprints(alerts: Seq<AlertView>) -> bool {
    forall|i: int, j: int|
        0 <= i < j < alerts.len() ==> (#[trigger] alerts[i]).fingerprint != (
        #[trigger] alerts[j]).fingerprint
}

/// What a polling cycle has gathered.
pub struct Cycle {
    pub alerts: Vec<Alert>,
    pub errors: StringMap<String>,
    pub statuses: StringMap<ServerStatus>,
    pub failed: usize,
}

impl View for Cycle {
    type V = CycleView;

    open spec fn view(&self) -> CycleView {
        CycleView {
            alerts: alert_views(self.alerts@),
            errors: self.errors@,
            statuses: self.statuses@,
            failed: self.failed as nat,
        }
    }
}

/// Merging an alert in keeps the fingerprints distinct.
pub proof fn lemma_merged_distinct(alerts: Seq<AlertView>, alert: AlertView)
    requires
        distinct_fingerprints(alerts),
    ensures
        distinct_fingerprints(merged_in(alerts, alert)),
{
    let merged = merged_in(alerts, alert);
    assert forall|i: int, j: int| 0 <= i < j < merged.len() implies (
    #[trigger] merged[i]).fingerprint != (#[trigger] merged[j]).fingerprint by {
        if merged.len() == alerts.len() {
            assert(merged[i].fingerprint == alerts[i].fingerprint);
            assert(merged[j].fingerprint == alerts[j].fingerprint);
        } else {
            assert(merged[i] == alerts[i]);
            if j < alerts.len() {
                assert(merged[j] == alerts[j]);
            }
        }
    }
}

/// Puts an alert into the list, in the place of the one with its fingerprint if
/// there is one.
fn merge_alert(alerts: &mut Vec<Alert>, alert: Alert)
    requires
        distinct_fingerprints(alert_views(old(alerts)@)),
    ensures
        alert_views(final(alerts)@) == merged_in(alert_views(old(alerts)@), alert@),
        distinct_fingerprints(alert_views(final(alerts)@)),
{
    let ghost before = alert_views(alerts@);
    proof {
        lemma_merged_distinct(before, alert@);
    }
    let n: usize = alerts.len();
    for i in 0..n
        invariant
            n == alerts@.len(),
            alerts@ == old(alerts)@,
            before == alert_views(alerts@),
            distinct_fingerprints(before),
            distinct_fingerprints(merged_in(before, alert@)),
            forall|k: int| 0 <= k < i ==> (#[trigger] before[k]).fingerprint != alert@.fingerprint,
    {
        if alerts[i].fingerprint == alert.fingerprint {
            assert(before[i as int].fingerprint == alert@.fingerprint);
            alerts.set(i, alert);
            assert(alert_views(alerts@) =~= merged_in(before, alert@)) by {
                assert forall|k: int| 0 <= k < n implies alert_views(alerts@)[k] == merged_in(
                    before,
                    alert@,
                )[k] by {
                    if k > i {
                        assert(before[i as int].fingerprint != before[k].fingerprint);
                    }
                }
            }
            return;
        }
    }
    alerts.push(alert);
    assert(alert_views(alerts@) =~= merged_in(before, alert@));
}

/// Merges the alerts of one server that are to be shown into the list.
fn merge_alerts(
    shown_alerts: &mut Vec<Alert>,
    alerts: &Vec<Alert>,
    heartbeat_alert_name: &str,
    source: &str,
)
    requires
        distinct_fingerprints(alert_views(old(shown_alerts)@)),
    ensures
        alert_views(final(shown_alerts)@) == with_alerts(
            alert_views(old(shown_alerts)@),
            alert_views(alerts@),
            heartbeat_alert_name@,
            source@,
        ),
        distinct_fingerprints(alert_views(final(shown_alerts)@)),
{
    let ghost before = alert_views(shown_alerts@);
    let ghost all = alert_views(alerts@);
    for i in 0..alerts.len()
        invariant
            all == alert_views(alerts@),
            alert_views(shown_alerts@) == with_alerts(
                before,
                all.take(i as int),
                heartbeat_alert_name@,
                source@,
            ),
            distinct_fingerprints(alert_views(shown_alerts@)),
    {
        assert(all.take(i + 1).drop_last() == all.take(i as int));
        assert(all.take(i + 1).last() == alerts@[i as int]@);
        if is_firing(&alerts[i]) && !is_heartbeat_alert(&alerts[i], heartbeat_alert_name) {
            let mut alert = alerts[i].clone();
            alert.source_url = Some(source.to_owned());
            assert(alert@ == stamped(alerts@[i as int]@, source@));
            merge_alert(shown_alerts, alert);
        }
    }
    assert(all.take(alerts@.len() as int) == all);
}

/// Gathers what the polls amounted to. `now` is the time of the cycle as text,
/// and `previous` tells how the servers stood before.
pub fn gather(
    polls: &Vec<ServerPoll>,
    heartbeat_alert_name: &str,
    now: &str,
    previous: &StringMap<ServerStatus>,
) -> (r: Cycle)
    ensures
        r@ == gathered(poll_views(polls@), heartbeat_alert_name@, now@, previous@),
        distinct_fingerprints(r@.alerts),
        r.failed <= polls@.len(),
{
    let mut cycle = Cycle {
        alerts: Vec::new(),
        errors: StringMap::new(),
        statuses: StringMap::new(),
        failed: 0,
    };
    assert(cycle@ =~= empty_cycle());
    let ghost all = poll_views(polls@);
    for i in 0..polls.len()
        invariant
            all == poll_views(polls@),
            cycle@ == gathered(all.take(i as int), heartbeat_alert_name@, now@, previous@),
            distinct_fingerprints(cycle@.alerts),
            cycle.failed <= i,
    {
        assert(all.take(i + 1).drop_last() == all.take(i as int));
        assert(all.take(i + 1).last() == polls@[i as int]@);
        let ghost before = cycle@;
        let poll = &polls[i];
        let source = trim_trailing_slashes(poll.server.url.as_str());
        if !source.is_empty() {
            if let Some(outcome) = &poll.outcome {
                let url = &poll.server.url;
                let mut reachable = false;
                let mut heartbeat_seen = false;
                let mut last_error: Option<String> = None;
                match outcome {
                    Ok(alerts) => {
                        reachable = true;
                        merge_alerts(&mut cycle.alerts, alerts, heartbeat_alert_name, source);
                        heartbeat_seen = alerts_contain_firing_heartbeat(
                            alerts.as_slice(),
                            heartbeat_alert_name,
                        );
                    },
                    Err(message) => {
                        cycle.failed = cycle.failed + 1;
                        last_error = Some(message.clone());
                        cycle.errors.insert(url.clone(), message.clone());
                    },
                }
                let last_heartbeat_at = if heartbeat_seen {
                    Some(now.to_owned())
                } else {
                    match previous.get(url.as_str()) {
                        Some(status) => copy_optional(&status.last_heartbeat_at),
                        None => None,
                    }
                };
                let status = ServerStatus {
                    url: url.clone(),
                    reachable,
                    heartbeat_ok: heartbeat_seen,
                    connected: is_connected(reachable, heartbeat_seen, heartbeat_alert_name),
                    last_heartbeat_at,
                    last_error,
                    checked_at: now.to_owned(),
                };
                assert(status@ == status_after(
                    url@,
                    outcome_view(*outcome),
                    heartbeat_alert_name@,
                    now@,
                    previous@,
                ));
                cycle.statuses.insert(url.clone(), status);
            }
        }
        assert(cycle@ =~= cycle_step(
            before,
            polls@[i as int]@,
            heartbeat_alert_name@,
            now@,
            previous@,
        ));
    }
    assert(all.take(polls@.len() as int) == all);
    cycle
}

} // verus!

//! What holds of a round: the configuration is looked at, the servers are
//! polled, and the cycle is concluded.

use vstd::prelude::*;
#[allow(unused_imports)]
use crate::config::{AppConfigView, refreshed};
#[allow(unused_imports)]
use crate::endpoint::poll_request_view;
#[allow(unused_imports)]
use crate::laws::notifying::{free_of_heartbeat, law_heartbeat_never_shown};
#[allow(unused_imports)]
use crate::laws::servers::{law_polled_servers_have_status, polled_as};
#[allow(unused_imports)]
use crate::poll::ServerPollView;
#[allow(unused_imports)]
use crate::state::{AppStateView, CyclePlanView, begun_state, cycle_plan, cycle_state};

verus! {

/// The polls are those that the plan asks for: one for each of its servers, in
/// order, with an outcome wherever a request goes out.
pub open spec fn carries_out(polls: Seq<ServerPollView>, plan: CyclePlanView) -> bool {
    &&& polls.len() == plan.servers.len()
    &&& forall|i: int|
        0 <= i < polls.len() ==> (#[trigger] polls[i]).url == plan.servers[i].url && (
        polls[i].outcome is Some <==> poll_request_view(plan.servers[i]) is Some)
}

/// The server number `i` of the configuration gets a request and has the given
/// URL.
pub open spec fn asked(config: AppConfigView, url: Seq<char>, i: int) -> bool {
    &&& 0 <= i < config.servers.len()
    &&& config.servers[i].url == url
    &&& poll_request_view(config.servers[i]) is Some
}

/// Every round goes by the configuration on disk, or by the one from before
/// where none can be read: it polls the servers of that configuration, leaves
/// out its heartbeat alert, and waits for its interval. Beginning a round
/// changes nothing else, and the round leaves the configuration in use.
pub proof fn law_round_goes_by_config(
    before: AppStateView,
    loaded: Option<AppConfigView>,
    polls: Seq<ServerPollView>,
    now: Seq<char>,
)
    requires
        carries_out(polls, cycle_plan(begun_state(before, loaded).config)),
    ensures
        ({
            let config = refreshed(before.config, loaded);
            let begun = begun_state(before, loaded);
            let plan = cycle_plan(begun.config);
            let after = cycle_state(begun, polls, plan.heartbeat_alert_name, now);
            &&& begun == AppStateView { config, ..before }
            &&& plan.servers == config.servers
            &&& plan.heartbeat_alert_name == config.heartbeat_alert_name
            &&& plan.interval_secs == config.polling_interval_secs
            &&& after.config == config
            &&& free_of_heartbeat(after, config.heartbeat_alert_name)
            &&& forall|url: Seq<char>| #[trigger]
                after.server_statuses.contains_key(url) <==> exists|i: int| asked(config, url, i)
        }),
{
    let config = refreshed(before.config, loaded);
    let begun = begun_state(before, loaded);
    let name = config.heartbeat_alert_name;
    let after = cycle_state(begun, polls, name, now);
    law_heartbeat_never_shown(begun, polls, name, now);
    assert forall|url: Seq<char>| #[trigger]
        after.server_statuses.contains_key(url) <==> exists|i: int| asked(config, url, i) by {
        law_polled_servers_have_status(polls, name, now, before.server_statuses, url);
        if exists|p: int| polled_as(polls, url, p) {
            let p = choose|p: int| polled_as(polls, url, p);
            assert(asked(config, url, p));
        }
        if exists|i: int| asked(config, url, i) {
            let i = choose|i: int| asked(config, url, i);
            assert(polls[i].url == url);
            assert(polled_as(polls, url, i));
        }
    }
}

} // verus!

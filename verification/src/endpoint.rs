//! Which requests go to a Grafana instance.

use vstd::prelude::*;
use crate::config::GrafanaServer;
#[allow(unused_imports)]
use crate::config::{GrafanaServerView, server_views};
#[allow(unused_imports)]
use crate::text::{blank, without_trailing_slashes};
use crate::text::{is_blank, join, trim_trailing_slashes};

verus! {

/// Where the Alertmanager of Grafana's unified alerting is reached. The paths
/// of the Alertmanager API, version 2, follow it.
pub const GRAFANA_AM_PREFIX: &'static str = "/api/alertmanager/grafana";

/// The URL of an Alertmanager path on the instance at `base`, whose trailing
/// slashes do not count.
pub open spec fn endpoint(base: Seq<char>, path: Seq<char>) -> Seq<char> {
    without_trailing_slashes(base) + GRAFANA_AM_PREFIX@ + path
}

/// The URL under which the alerts of an instance are listed.
pub fn alerts_endpoint(base_url: &str) -> (r: String)
    ensures
        r@ == endpoint(base_url@, "/api/v2/alerts"@),
{
    join(trim_trailing_slashes(base_url), GRAFANA_AM_PREFIX).concat("/api/v2/alerts")
}

/// The URL to which silences for an instance are posted.
pub fn silences_endpoint(base_url: &str) -> (r: String)
    ensures
        r@ == endpoint(base_url@, "/api/v2/silences"@),
{
    join(trim_trailing_slashes(base_url), GRAFANA_AM_PREFIX).concat("/api/v2/silences")
}

/// An HTTP request, but for its method and body.
#[derive(Debug)]
pub struct HttpRequest {
    pub url: String,
    /// The bearer token that authorizes it, if it carries one.
    pub bearer: Option<String>,
}

/// What an [`HttpRequest`] stands for.
#[verifier::ext_equal]
pub struct HttpRequestView {
    pub url: Seq<char>,
    pub bearer: Option<Seq<char>>,
}

impl View for HttpRequest {
    type V = HttpRequestView;

    open spec fn view(&self) -> HttpRequestView {
        HttpRequestView {
            url: self.url@,
            bearer: match self.bearer {
                Some(token) => Some(token@),
                None => None,
            },
        }
    }
}

/// The token to send: a blank one is not sent.
pub open spec fn bearer_of(token: Seq<char>) -> Option<Seq<char>> {
    if blank(token) {
        None
    } else {
        Some(token)
    }
}

/// The token to send to the server, if any.
fn bearer_for(server: &GrafanaServer) -> (r: Option<String>)
    ensures
        match r {
            Some(token) => bearer_of(server.token@) == Some(token@),
            None => bearer_of(server.token@) is None,
        },
{
    if is_blank(server.token.as_str()) {
        None
    } else {
        Some(server.token.clone())
    }
}

/// The request that lists a server's alerts. A server whose URL is nothing but
/// slashes is not asked.
pub open spec fn poll_request_view(server: GrafanaServerView) -> Option<HttpRequestView> {
    if without_trailing_slashes(server.url).len() == 0 {
        None
    } else {
        Some(
            HttpRequestView {
                url: endpoint(server.url, "/api/v2/alerts"@),
                bearer: bearer_of(server.token),
            },
        )
    }
}

/// The request with which a server is polled.
pub fn poll_request(server: &GrafanaServer) -> (r: Option<HttpRequest>)
    ensures
        match r {
            Some(request) => poll_request_view(server@) == Some(request@),
            None => poll_request_view(server@) is None,
        },
{
    if trim_trailing_slashes(server.url.as_str()).is_empty() {
        None
    } else {
        Some(HttpRequest { url: alerts_endpoint(server.url.as_str()), bearer: bearer_for(server) })
    }
}

/// The requests that carry a silence to the servers, in order. A server with a
/// blank URL gets none.
pub open spec fn silence_requests_view(servers: Seq<GrafanaServerView>) -> Seq<HttpRequestView>
    decreases servers.len(),
{
    if servers.len() == 0 {
        Seq::empty()
    } else {
        let front = silence_requests_view(servers.drop_last());
        let server = servers.last();
        if blank(server.url) {
            front
        } else {
            front.push(
                HttpRequestView {
                    url: endpoint(server.url, "/api/v2/silences"@),
                    bearer: bearer_of(server.token),
                },
            )
        }
    }
}

/// What a list of requests stands for.
pub open spec fn request_views(s: Seq<HttpRequest>) -> Seq<HttpRequestView> {
    Seq::new(s.len(), |i: int| s[i]@)
}

/// The requests with which a silence is created.
pub fn silence_requests(servers: &Vec<GrafanaServer>) -> (r: Vec<HttpRequest>)
    ensures
        request_views(r@) == silence_requests_view(server_views(servers@)),
{
    let mut requests: Vec<HttpRequest> = Vec::new();
    let ghost all = server_views(servers@);
    for i in 0..servers.len()
        invariant
            all == server_views(servers@),
            request_views(requests@) == silence_requests_view(all.take(i as int)),
    {
        assert(all.take(i + 1).drop_last() == all.take(i as int));
        let ghost before = requests@;
        let server = &servers[i];
        if !is_blank(server.url.as_str()) {
            let request = HttpRequest {
                url: silences_endpoint(server.url.as_str()),
                bearer: bearer_for(server),
            };
            requests.push(request);
            assert(request_views(requests@) == request_views(before).push(request@));
        }
    }
    assert(all.take(servers@.len() as int) == all);
    requests
}

} // verus!

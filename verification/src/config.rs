//! The configuration: its defaults, the migration of older shapes, and when a
//! configuration read from disk takes effect.

use vstd::prelude::*;
use crate::text::join;

verus! {

/// One monitored Grafana instance, with the token of its own service account.
#[derive(Debug)]
pub struct GrafanaServer {
    pub url: String,
    pub token: String,
}

/// What a [`GrafanaServer`] stands for.
#[verifier::ext_equal]
pub struct GrafanaServerView {
    pub url: Seq<char>,
    pub token: Seq<char>,
}

impl View for GrafanaServer {
    type V = GrafanaServerView;

    open spec fn view(&self) -> GrafanaServerView {
        GrafanaServerView { url: self.url@, token: self.token@ }
    }
}

impl Default for GrafanaServer {
    fn default() -> (r: Self)
        ensures
            r.url@ == Seq::<char>::empty(),
            r.token@ == Seq::<char>::empty(),
    {
        GrafanaServer { url: String::new(), token: String::new() }
    }
}

impl Clone for GrafanaServer {
    fn clone(&self) -> (r: Self)
        ensures
            r@ == self@,
    {
        GrafanaServer { url: self.url.clone(), token: self.token.clone() }
    }
}

/// What a list of servers stands for.
pub open spec fn server_views(s: Seq<GrafanaServer>) -> Seq<GrafanaServerView> {
    Seq::new(s.len(), |i: int| s[i]@)
}

/// What a list of strings stands for.
pub open spec fn string_views(s: Seq<String>) -> Seq<Seq<char>> {
    Seq::new(s.len(), |i: int| s[i]@)
}

/// The configuration of the monitor.
#[derive(Debug)]
pub struct AppConfig {
    pub servers: Vec<GrafanaServer>,
    pub polling_interval_secs: u64,
    pub heartbeat_alert_name: String,
    /// The server URLs of a configuration file from before each server had a
    /// token of its own. [`AppConfig::normalize`] folds them into `servers`.
    pub legacy_urls: Vec<String>,
    /// The one token that such a file holds for all its servers.
    pub legacy_token: String,
}

/// What an [`AppConfig`] stands for.
#[verifier::ext_equal]
pub struct AppConfigView {
    pub servers: Seq<GrafanaServerView>,
    pub polling_interval_secs: u64,
    pub heartbeat_alert_name: Seq<char>,
    pub legacy_urls: Seq<Seq<char>>,
    pub legacy_token: Seq<char>,
}

impl View for AppConfig {
    type V = AppConfigView;

    open spec fn view(&self) -> AppConfigView {
        AppConfigView {
            servers: server_views(self.servers@),
            polling_interval_secs: self.polling_interval_secs,
            heartbeat_alert_name: self.heartbeat_alert_name@,
            legacy_urls: string_views(self.legacy_urls@),
            legacy_token: self.legacy_token@,
        }
    }
}

/// One server for each URL, all with the same token.
pub open spec fn servers_sharing(urls: Seq<Seq<char>>, token: Seq<char>) -> Seq<GrafanaServerView> {
    Seq::new(urls.len(), |i: int| GrafanaServerView { url: urls[i], token })
}

/// The configuration with its legacy fields folded into the servers: they
/// count only where no servers are listed, and are empty afterwards.
pub open spec fn normalized(config: AppConfigView) -> AppConfigView {
    AppConfigView {
        servers: if config.servers.len() == 0 {
            servers_sharing(config.legacy_urls, config.legacy_token)
        } else {
            config.servers
        },
        legacy_urls: Seq::empty(),
        legacy_token: Seq::empty(),
        ..config
    }
}

/// What a configuration read from disk stands for, if one could be read.
pub open spec fn loaded_view(loaded: Option<AppConfig>) -> Option<AppConfigView> {
    match loaded {
        Some(config) => Some(config@),
        None => None,
    }
}

/// The configuration once the file was looked at: that of the file, or the one
/// from before where none could be read.
pub open spec fn refreshed(config: AppConfigView, loaded: Option<AppConfigView>) -> AppConfigView {
    match loaded {
        Some(found) => normalized(found),
        None => config,
    }
}

/// The configuration with what the user entered.
pub open spec fn updated(
    config: AppConfigView,
    servers: Seq<GrafanaServerView>,
    interval: u64,
    heartbeat_alert_name: Seq<char>,
) -> AppConfigView {
    AppConfigView { servers, polling_interval_secs: interval, heartbeat_alert_name, ..config }
}

/// The configuration that applies where none is given: one server on this
/// machine, without a token, polled every minute.
pub open spec fn default_config() -> AppConfigView {
    AppConfigView {
        servers: seq![
            GrafanaServerView { url: "http://localhost:3000"@, token: Seq::empty() },
        ],
        polling_interval_secs: 60,
        heartbeat_alert_name: "AlwaysFiringTest"@,
        legacy_urls: Seq::empty(),
        legacy_token: Seq::empty(),
    }
}

/// The name of the heartbeat alert where none is configured.
pub fn default_heartbeat_alert_name() -> (r: String)
    ensures
        r@ == "AlwaysFiringTest"@,
{
    "AlwaysFiringTest".to_owned()
}

/// A copy of a list of servers.
pub fn copy_servers(servers: &Vec<GrafanaServer>) -> (r: Vec<GrafanaServer>)
    ensures
        server_views(r@) == server_views(servers@),
{
    let mut copy: Vec<GrafanaServer> = Vec::new();
    for i in 0..servers.len()
        invariant
            copy@.len() == i,
            forall|k: int| 0 <= k < i ==> (#[trigger] copy@[k])@ == servers@[k]@,
    {
        copy.push(servers[i].clone());
    }
    assert(server_views(copy@) =~= server_views(servers@));
    copy
}

impl Default for AppConfig {
    fn default() -> (r: Self)
        ensures
            r@ == default_config(),
    {
        let mut servers: Vec<GrafanaServer> = Vec::new();
        servers.push(
            GrafanaServer { url: "http://localhost:3000".to_owned(), token: String::new() },
        );
        let r = AppConfig {
            servers,
            polling_interval_secs: 60,
            heartbeat_alert_name: default_heartbeat_alert_name(),
            legacy_urls: Vec::new(),
            legacy_token: String::new(),
        };
        assert(r@.servers =~= default_config().servers);
        assert(r@.legacy_urls =~= Seq::empty());
        r
    }
}

impl Clone for AppConfig {
    fn clone(&self) -> (r: Self)
        ensures
            r@ == self@,
    {
        let mut legacy_urls: Vec<String> = Vec::new();
        for i in 0..self.legacy_urls.len()
            invariant
                legacy_urls@ == self.legacy_urls@.take(i as int),
        {
            legacy_urls.push(self.legacy_urls[i].clone());
            assert(legacy_urls@ == self.legacy_urls@.take(i + 1));
        }
        assert(legacy_urls@ == self.legacy_urls@);
        AppConfig {
            servers: copy_servers(&self.servers),
            polling_interval_secs: self.polling_interval_secs,
            heartbeat_alert_name: self.heartbeat_alert_name.clone(),
            legacy_urls,
            legacy_token: self.legacy_token.clone(),
        }
    }
}

impl AppConfig {
    /// Folds the legacy fields into `servers`, so that everything else deals
    /// with servers only.
    pub fn normalize(&mut self)
        ensures
            final(self)@ == normalized(old(self)@),
    {
        if self.servers.len() == 0 && self.legacy_urls.len() > 0 {
            let mut servers: Vec<GrafanaServer> = Vec::new();
            for i in 0..self.legacy_urls.len()
                invariant
                    *self == *old(self),
                    servers@.len() == i,
                    forall|k: int|
                        0 <= k < i ==> (#[trigger] servers@[k])@ == (GrafanaServerView {
                            url: self.legacy_urls@[k]@,
                            token: self.legacy_token@,
                        }),
            {
                servers.push(
                    GrafanaServer {
                        url: self.legacy_urls[i].clone(),
                        token: self.legacy_token.clone(),
                    },
                );
            }
            self.servers = servers;
        }
        self.legacy_urls = Vec::new();
        self.legacy_token = String::new();
        assert(self@.servers =~= normalized(old(self)@).servers);
        assert(self@.legacy_urls =~= Seq::empty());
    }

    /// Takes over a configuration read from disk. Where none could be read the
    /// configuration stays as it is.
    pub fn refresh(&mut self, loaded: Option<AppConfig>)
        ensures
            final(self)@ == refreshed(old(self)@, loaded_view(loaded)),
    {
        if let Some(config) = loaded {
            let mut fresh = config;
            fresh.normalize();
            *self = fresh;
        }
    }

    /// Takes over what the user entered.
    pub fn update(
        &mut self,
        servers: Vec<GrafanaServer>,
        interval: u64,
        heartbeat_alert_name: String,
    )
        ensures
            final(self)@ == updated(
                old(self)@,
                server_views(servers@),
                interval,
                heartbeat_alert_name@,
            ),
    {
        self.servers = servers;
        self.polling_interval_secs = interval;
        self.heartbeat_alert_name = heartbeat_alert_name;
    }
}

/// What was found where the configuration file should be.
#[derive(Debug)]
pub enum ConfigFile {
    Missing,
    Unreadable,
    Unparsable,
    Parsed(AppConfig),
}

/// The configuration to start with.
#[derive(Debug)]
pub struct StartupConfig {
    pub config: AppConfig,
    /// A file with the default configuration is to be written.
    pub write_default: bool,
}

/// The configuration that a found file asks for at startup.
pub open spec fn startup_view(found: ConfigFile) -> AppConfigView {
    match found {
        ConfigFile::Parsed(config) => normalized(config@),
        _ => default_config(),
    }
}

/// Chooses the configuration to start with: that of the file where it could be
/// read, the default otherwise. Only a missing file is written.
pub fn startup_config(found: ConfigFile) -> (r: StartupConfig)
    ensures
        r.config@ == startup_view(found),
        r.write_default == (found is Missing),
{
    let write_default = match &found {
        ConfigFile::Missing => true,
        _ => false,
    };
    let mut config = match found {
        ConfigFile::Parsed(config) => config,
        _ => AppConfig::default(),
    };
    config.normalize();
    assert(normalized(default_config()) == default_config());
    StartupConfig { config, write_default }
}

/// How storing the configuration went.
#[derive(Debug)]
pub enum StoreOutcome {
    /// The configuration could not be turned into text, so nothing was written.
    NotEncoded,
    Written,
    /// The file could not be written, for the given reason.
    Failed(String),
}

/// What the user is told about a configuration that was to be stored. On
/// success the next poll starts at once.
pub fn save_result(outcome: StoreOutcome) -> (r: Result<(), String>)
    ensures
        match outcome {
            StoreOutcome::Failed(reason) => r is Err && r->Err_0@ == "Failed to save config file: "@
                + reason@,
            _ => r is Ok,
        },
{
    match outcome {
        StoreOutcome::Failed(reason) => Err(join("Failed to save config file: ", reason.as_str())),
        _ => Ok(()),
    }
}

} // verus!

//! Configuration of MCP servers.

use std::collections::HashMap;
use std::time::Duration;
use vstd::prelude::*;
use vstd::string::*;

use crate::text;
use crate::time;

verus! {

/// Seconds that connecting may take when the configuration does not say.
pub const DEFAULT_CONNECT_TIMEOUT_SECS: u64 = 30;

/// Seconds that listing the tools may take when the configuration does not say.
pub const DEFAULT_DISCOVERY_TIMEOUT_SECS: u64 = 30;

/// Seconds that one tool call may take when the configuration does not say.
pub const DEFAULT_TOOL_TIMEOUT_SECS: u64 = 300;

/// Loopback port of the redirect URI when the settings do not say.
pub const DEFAULT_REDIRECT_PORT: u16 = 8970;

/// How to reach one MCP server.
///
/// A timeout of zero seconds means that there is none.
#[derive(Debug, Clone)]
pub enum McpServerConfig {
    /// A program to start, which is spoken to over its standard streams.
    Command {
        command: String,
        args: Vec<String>,
        env: HashMap<String, String>,
        connect_timeout_secs: u64,
        discovery_timeout_secs: u64,
        tool_timeout_secs: u64,
    },
    /// An address to connect to.
    Url {
        url: String,
        headers: HashMap<String, String>,
        oauth: Option<OAuthConfig>,
        connect_timeout_secs: u64,
        discovery_timeout_secs: u64,
        tool_timeout_secs: u64,
    },
}

/// OAuth settings for a URL-based MCP server.
///
/// Either a bare `true` (enable with all defaults: dynamic client
/// registration, no extra scopes), a bare `false`, or explicit settings.
#[derive(Debug, Clone)]
pub enum OAuthConfig {
    Enabled(bool),
    Settings(OAuthSettings),
}

/// Explicit OAuth settings.
#[derive(Debug)]
pub struct OAuthSettings {
    /// OAuth scopes to request. Empty means none are requested explicitly.
    pub scopes: Vec<String>,
    /// Pre-registered client id. When absent, dynamic client registration is used.
    pub client_id: Option<String>,
    /// Loopback port for the redirect URI. Defaults to [`DEFAULT_REDIRECT_PORT`].
    pub redirect_port: Option<u16>,
}

/// Seconds for connecting when none are configured.
pub fn default_connect_timeout_secs() -> (secs: u64)
    ensures
        secs == DEFAULT_CONNECT_TIMEOUT_SECS,
        secs == 30,
{
    DEFAULT_CONNECT_TIMEOUT_SECS
}

/// Seconds for listing the tools when none are configured.
pub fn default_discovery_timeout_secs() -> (secs: u64)
    ensures
        secs == DEFAULT_DISCOVERY_TIMEOUT_SECS,
        secs == 30,
{
    DEFAULT_DISCOVERY_TIMEOUT_SECS
}

/// Seconds for a tool call when none are configured.
pub fn default_tool_timeout_secs() -> (secs: u64)
    ensures
        secs == DEFAULT_TOOL_TIMEOUT_SECS,
        secs == 300,
{
    DEFAULT_TOOL_TIMEOUT_SECS
}

/// `limit` is the time limit that `seconds` configures: none for zero, exactly
/// that many seconds otherwise.
pub open spec fn is_timeout(limit: Option<Duration>, seconds: u64) -> bool {
    match limit {
        None => seconds == 0,
        Some(duration) => seconds > 0 && time::lasts_secs(duration, seconds as nat),
    }
}

/// The time limit that a number of seconds configures.
pub fn timeout(seconds: u64) -> (limit: Option<Duration>)
    ensures
        is_timeout(limit, seconds),
        limit is None <==> seconds == 0,
        limit matches Some(duration) ==> time::duration_nanos(duration) == 1_000_000_000 * seconds,
{
    if seconds > 0 {
        Some(Duration::from_secs(seconds))
    } else {
        None
    }
}

impl McpServerConfig {
    /// Configured seconds for connecting, for listing the tools and for one
    /// tool call.
    pub open spec fn configured_secs(&self) -> (u64, u64, u64) {
        match *self {
            McpServerConfig::Command {
                connect_timeout_secs,
                discovery_timeout_secs,
                tool_timeout_secs,
                ..
            } => (connect_timeout_secs, discovery_timeout_secs, tool_timeout_secs),
            McpServerConfig::Url {
                connect_timeout_secs,
                discovery_timeout_secs,
                tool_timeout_secs,
                ..
            } => (connect_timeout_secs, discovery_timeout_secs, tool_timeout_secs),
        }
    }

    /// How long connecting may take.
    pub fn connect_timeout(&self) -> (limit: Option<Duration>)
        ensures
            is_timeout(limit, self.configured_secs().0),
    {
        timeout(self.timeout_secs().0)
    }

    /// How long listing the tools may take.
    pub fn discovery_timeout(&self) -> (limit: Option<Duration>)
        ensures
            is_timeout(limit, self.configured_secs().1),
    {
        timeout(self.timeout_secs().1)
    }

    /// How long one tool call may take.
    pub fn tool_timeout(&self) -> (limit: Option<Duration>)
        ensures
            is_timeout(limit, self.configured_secs().2),
    {
        timeout(self.timeout_secs().2)
    }

    /// The three configured numbers of seconds.
    pub fn timeout_secs(&self) -> (secs: (u64, u64, u64))
        ensures
            secs == self.configured_secs(),
            match *self {
                McpServerConfig::Command { connect_timeout_secs, .. } => secs.0
                    == connect_timeout_secs,
                McpServerConfig::Url { connect_timeout_secs, .. } => secs.0 == connect_timeout_secs,
            },
            match *self {
                McpServerConfig::Command { discovery_timeout_secs, .. } => secs.1
                    == discovery_timeout_secs,
                McpServerConfig::Url { discovery_timeout_secs, .. } => secs.1
                    == discovery_timeout_secs,
            },
            match *self {
                McpServerConfig::Command { tool_timeout_secs, .. } => secs.2 == tool_timeout_secs,
                McpServerConfig::Url { tool_timeout_secs, .. } => secs.2 == tool_timeout_secs,
            },
    {
        match self {
            Self::Command {
                connect_timeout_secs,
                discovery_timeout_secs,
                tool_timeout_secs,
                ..
            }
            | Self::Url {
                connect_timeout_secs,
                discovery_timeout_secs,
                tool_timeout_secs,
                ..
            } => (*connect_timeout_secs, *discovery_timeout_secs, *tool_timeout_secs),
        }
    }
}

/// The value of OAuth settings, field by field.
pub struct OAuthSettingsView {
    pub scopes: Seq<Seq<char>>,
    pub client_id: Option<Seq<char>>,
    pub redirect_port: Option<u16>,
}

impl View for OAuthSettings {
    type V = OAuthSettingsView;

    open spec fn view(&self) -> OAuthSettingsView {
        OAuthSettingsView {
            scopes: self.scopes@.map_values(|scope: String| scope@),
            client_id: match self.client_id {
                Some(id) => Some(id@),
                None => None,
            },
            redirect_port: self.redirect_port,
        }
    }
}

impl OAuthSettingsView {
    /// No scopes, no client id, no port.
    pub open spec fn defaults() -> OAuthSettingsView {
        OAuthSettingsView { scopes: seq![], client_id: None, redirect_port: None }
    }

    /// The port that the redirect goes to.
    pub open spec fn effective_port(self) -> u16 {
        match self.redirect_port {
            Some(port) => port,
            None => DEFAULT_REDIRECT_PORT,
        }
    }
}

/// The loopback address that an OAuth redirect to `port` goes to.
pub open spec fn callback_uri(port: u16) -> Seq<char> {
    "http://127.0.0.1:"@ + text::decimal(port as nat) + "/callback"@
}

impl Clone for OAuthSettings {
    fn clone(&self) -> (copy: Self)
        ensures
            copy@ == self@,
            copy.scopes@ == self.scopes@,
            copy.client_id == self.client_id,
            copy.redirect_port == self.redirect_port,
    {
        let copy = OAuthSettings {
            scopes: self.scopes.clone(),
            client_id: self.client_id.clone(),
            redirect_port: self.redirect_port,
        };
        assert(copy@.scopes =~= self@.scopes);
        copy
    }
}

impl Default for OAuthSettings {
    fn default() -> (settings: Self)
        ensures
            settings@ == OAuthSettingsView::defaults(),
            settings.scopes@.len() == 0,
            settings.client_id is None,
            settings.redirect_port is None,
    {
        let settings = OAuthSettings { scopes: Vec::new(), client_id: None, redirect_port: None };
        assert(settings@.scopes =~= seq![]);
        settings
    }
}

impl OAuthConfig {
    /// The settings in force: none where OAuth is disabled, all defaults for a
    /// bare `true`, the explicit ones otherwise.
    pub open spec fn resolved(&self) -> Option<OAuthSettingsView> {
        match *self {
            OAuthConfig::Enabled(false) => None,
            OAuthConfig::Enabled(true) => Some(OAuthSettingsView::defaults()),
            OAuthConfig::Settings(settings) => Some(settings@),
        }
    }

    /// Returns the resolved settings if OAuth is enabled, or `None` if disabled.
    pub fn settings(&self) -> (settings: Option<OAuthSettings>)
        ensures
            match settings {
                Some(settings) => self.resolved() == Some(settings@),
                None => self.resolved() is None,
            },
            settings is None <==> *self == OAuthConfig::Enabled(false),
            *self matches OAuthConfig::Settings(explicit) ==> {
                &&& settings->0.scopes@ == explicit.scopes@
                &&& settings->0.client_id == explicit.client_id
                &&& settings->0.redirect_port == explicit.redirect_port
            },
    {
        match self {
            OAuthConfig::Enabled(false) => None,
            OAuthConfig::Enabled(true) => Some(OAuthSettings::default()),
            OAuthConfig::Settings(settings) => Some(settings.clone()),
        }
    }
}

impl OAuthSettings {
    /// The loopback port that the redirect goes to.
    pub fn redirect_port(&self) -> (port: u16)
        ensures
            port == self@.effective_port(),
            self.redirect_port is Some ==> port == self.redirect_port->0,
            self.redirect_port is None ==> port == 8970,
    {
        self.redirect_port.unwrap_or(DEFAULT_REDIRECT_PORT)
    }

    /// The address that the redirect goes to.
    pub fn redirect_uri(&self) -> (uri: String)
        ensures
            uri@ == callback_uri(self@.effective_port()),
            self.redirect_port is Some ==> uri@ == callback_uri(self.redirect_port->0),
            self.redirect_port is None ==> uri@ == callback_uri(8970),
    {
        let mut uri = "http://127.0.0.1:".to_owned();
        uri.append(text::decimal_text(self.redirect_port() as u64).as_str());
        uri.append("/callback");
        uri
    }
}

/// A time limit that exists is never empty, and its whole seconds are the
/// configured ones.
pub proof fn law_limit_lasts_as_configured(limit: Duration, seconds: u64)
    requires
        is_timeout(Some(limit), seconds),
    ensures
        time::duration_nanos(limit) > 0,
        time::whole_secs(limit) == seconds,
{
    time::lemma_whole_secs(limit, seconds as nat);
}

/// The time limits depend on the configured seconds alone, not on how the
/// server is reached.
pub proof fn law_limits_do_not_depend_on_transport(program: McpServerConfig, address: McpServerConfig)
    requires
        program matches McpServerConfig::Command {
            connect_timeout_secs: c1,
            discovery_timeout_secs: d1,
            tool_timeout_secs: t1,
            ..
        } && address matches McpServerConfig::Url {
            connect_timeout_secs: c2,
            discovery_timeout_secs: d2,
            tool_timeout_secs: t2,
            ..
        } && c1 == c2 && d1 == d2 && t1 == t2,
    ensures
        program.configured_secs() == address.configured_secs(),
{
}

/// A bare `true` means the same as explicit settings that are all defaults.
pub proof fn law_bare_true_means_defaults(explicit: OAuthSettings)
    requires
        explicit@ == OAuthSettingsView::defaults(),
    ensures
        OAuthConfig::Enabled(true).resolved() == OAuthConfig::Settings(explicit).resolved(),
{
}

/// OAuth is off only where the configuration is a bare `false`.
pub proof fn law_only_bare_false_disables(config: OAuthConfig)
    ensures
        config.resolved() is None <==> config == OAuthConfig::Enabled(false),
{
}

/// The redirect URI tells which port it goes to.
pub proof fn law_callback_uri_identifies_port(a: u16, b: u16)
    requires
        callback_uri(a) == callback_uri(b),
    ensures
        a == b,
{
    let start = "http://127.0.0.1:"@;
    let end = "/callback"@;
    let da = text::decimal(a as nat);
    let db = text::decimal(b as nat);
    assert(callback_uri(a).len() == start.len() + da.len() + end.len());
    assert(callback_uri(b).len() == start.len() + db.len() + end.len());
    assert(callback_uri(a).subrange(start.len() as int, (start.len() + da.len()) as int) =~= da);
    assert(callback_uri(b).subrange(start.len() as int, (start.len() + db.len()) as int) =~= db);
    text::law_decimal_identifies_number(a as nat, b as nat);
}

/// There is no limit exactly where the configured seconds are zero. A limit
/// lasts as many thousand million nanoseconds as seconds were configured, no
/// more and no less.
pub proof fn law_zero_disables_and_seconds_are_exact(limit: Option<Duration>, seconds: u64)
    requires
        is_timeout(limit, seconds),
    ensures
        limit is None <==> seconds == 0,
        limit matches Some(duration) ==> time::duration_nanos(duration) == 1_000_000_000 * seconds,
{
}

/// Twice the seconds give twice the limit, and equal limits come from equal
/// seconds.
pub proof fn law_limits_grow_with_seconds(a: Duration, b: Duration, first: u64, second: u64)
    requires
        is_timeout(Some(a), first),
        is_timeout(Some(b), second),
    ensures
        first == second <==> time::duration_nanos(a) == time::duration_nanos(b),
        first < second <==> time::duration_nanos(a) < time::duration_nanos(b),
        second == 2 * first ==> time::duration_nanos(b) == 2 * time::duration_nanos(a),
{
}

/// Every server that is started as a program takes each of its three limits
/// from the field of that name.
pub proof fn law_program_limits_come_from_their_fields(
    command: String,
    args: Vec<String>,
    env: HashMap<String, String>,
    connect: u64,
    discovery: u64,
    tool: u64,
)
    ensures
        ({
            let config = McpServerConfig::Command {
                command,
                args,
                env,
                connect_timeout_secs: connect,
                discovery_timeout_secs: discovery,
                tool_timeout_secs: tool,
            };
            &&& config.configured_secs().0 == connect
            &&& config.configured_secs().1 == discovery
            &&& config.configured_secs().2 == tool
        }),
{
}

/// Every server that is reached by address takes each of its three limits from
/// the field of that name.
pub proof fn law_address_limits_come_from_their_fields(
    url: String,
    headers: HashMap<String, String>,
    oauth: Option<OAuthConfig>,
    connect: u64,
    discovery: u64,
    tool: u64,
)
    ensures
        ({
            let config = McpServerConfig::Url {
                url,
                headers,
                oauth,
                connect_timeout_secs: connect,
                discovery_timeout_secs: discovery,
                tool_timeout_secs: tool,
            };
            &&& config.configured_secs().0 == connect
            &&& config.configured_secs().1 == discovery
            &&& config.configured_secs().2 == tool
        }),
{
}

/// Settings have the same value only where every scope, the client id and the
/// port are the same; nothing of them is left out.
pub proof fn law_settings_value_holds_every_field(a: OAuthSettings, b: OAuthSettings)
    requires
        a@ == b@,
    ensures
        a.scopes@.len() == b.scopes@.len(),
        forall|i: int|
            0 <= i < a.scopes@.len() ==> (#[trigger] a.scopes@[i])@ == b.scopes@[i]@,
        a.client_id is Some <==> b.client_id is Some,
        a.client_id is Some ==> a.client_id->0@ == b.client_id->0@,
        a.redirect_port == b.redirect_port,
{
    assert(a@.scopes.len() == a.scopes@.len());
    assert(b@.scopes.len() == b.scopes@.len());
    assert forall|i: int| 0 <= i < a.scopes@.len() implies (#[trigger] a.scopes@[i])@
        == b.scopes@[i]@ by {
        assert(a@.scopes[i] == a.scopes@[i]@);
        assert(b@.scopes[i] == b.scopes@[i]@);
    }
}

/// Whatever the explicit settings are, those in force have the same scopes, the
/// same client id and the same port.
pub proof fn law_explicit_settings_are_in_force(explicit: OAuthSettings, in_force: OAuthSettings)
    requires
        OAuthConfig::Settings(explicit).resolved() == Some(in_force@),
    ensures
        in_force.scopes@.len() == explicit.scopes@.len(),
        forall|i: int|
            0 <= i < explicit.scopes@.len() ==> (#[trigger] in_force.scopes@[i])@
                == explicit.scopes@[i]@,
        in_force.client_id is Some <==> explicit.client_id is Some,
        explicit.client_id is Some ==> in_force.client_id->0@ == explicit.client_id->0@,
        in_force.redirect_port == explicit.redirect_port,
{
    law_settings_value_holds_every_field(in_force, explicit);
}

/// A bare `true` asks for no scopes, has no client id and no port of its own; a
/// bare `false` leaves no settings in force.
pub proof fn law_bare_true_sets_nothing(in_force: OAuthSettings)
    ensures
        OAuthConfig::Enabled(true).resolved() == Some(in_force@) ==> {
            &&& in_force.scopes@.len() == 0
            &&& in_force.client_id is None
            &&& in_force.redirect_port is None
        },
        OAuthConfig::Enabled(false).resolved() != Some(in_force@),
{
    if OAuthConfig::Enabled(true).resolved() == Some(in_force@) {
        assert(in_force@.scopes.len() == in_force.scopes@.len());
    }
}

/// The redirect goes to the port that the settings name, whichever it is, and
/// to 8970 where they name none.
pub proof fn law_redirect_goes_to_the_named_port(settings: OAuthSettings)
    ensures
        settings.redirect_port matches Some(port) ==> settings@.effective_port() == port,
        settings.redirect_port is None ==> settings@.effective_port() == 8970,
{
}

/// What stands between the fixed start and the fixed end of the redirect URI
/// is a number in decimal notation: the port.
pub proof fn law_callback_uri_reads_back_as_port(port: u16)
    ensures
        ({
            let start = "http://127.0.0.1:"@;
            let end = "/callback"@;
            let uri = callback_uri(port);
            let between = uri.subrange(start.len() as int, uri.len() - end.len());
            &&& uri.len() > start.len() + end.len()
            &&& uri.take(start.len() as int) == start
            &&& uri.skip(uri.len() - end.len()) == end
            &&& text::digits_value(between) == port
            &&& forall|i: int|
                0 <= i < between.len() ==> 48 <= (#[trigger] between[i]) as int <= 57
            &&& between[0] == '0' ==> port == 0
        }),
{
    let start = "http://127.0.0.1:"@;
    let end = "/callback"@;
    let uri = callback_uri(port);
    let between = uri.subrange(start.len() as int, uri.len() - end.len());
    text::law_decimal_reads_back(port as nat);
    assert(between =~= text::decimal(port as nat));
    assert(uri.take(start.len() as int) =~= start);
    assert(uri.skip(uri.len() - end.len()) =~= end);
}

} // verus!

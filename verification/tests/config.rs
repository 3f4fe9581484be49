use std::collections::HashMap;
use std::time::Duration;

use zerostack_mcp::config::{
    default_connect_timeout_secs, default_discovery_timeout_secs, default_tool_timeout_secs,
    timeout, McpServerConfig, OAuthConfig, OAuthSettings, DEFAULT_CONNECT_TIMEOUT_SECS,
    DEFAULT_DISCOVERY_TIMEOUT_SECS, DEFAULT_REDIRECT_PORT, DEFAULT_TOOL_TIMEOUT_SECS,
};

fn program(connect: u64, discovery: u64, tool: u64) -> McpServerConfig {
    McpServerConfig::Command {
        command: "server".to_string(),
        args: vec!["--stdio".to_string()],
        env: HashMap::new(),
        connect_timeout_secs: connect,
        discovery_timeout_secs: discovery,
        tool_timeout_secs: tool,
    }
}

fn address(connect: u64, discovery: u64, tool: u64) -> McpServerConfig {
    McpServerConfig::Url {
        url: "https://example.org/mcp".to_string(),
        headers: HashMap::new(),
        oauth: None,
        connect_timeout_secs: connect,
        discovery_timeout_secs: discovery,
        tool_timeout_secs: tool,
    }
}

#[test]
fn defaults_are_thirty_thirty_and_three_hundred_seconds() {
    assert_eq!(default_connect_timeout_secs(), 30);
    assert_eq!(default_discovery_timeout_secs(), 30);
    assert_eq!(default_tool_timeout_secs(), 300);
    assert_eq!(DEFAULT_CONNECT_TIMEOUT_SECS, 30);
    assert_eq!(DEFAULT_DISCOVERY_TIMEOUT_SECS, 30);
    assert_eq!(DEFAULT_TOOL_TIMEOUT_SECS, 300);
}

#[test]
fn zero_seconds_disable_a_timeout() {
    assert_eq!(timeout(0), None);
    assert_eq!(timeout(1), Some(Duration::from_secs(1)));
    assert_eq!(timeout(u64::MAX), Some(Duration::from_secs(u64::MAX)));
}

#[test]
fn each_timeout_comes_from_its_own_field() {
    for config in [program(5, 0, 70), address(5, 0, 70)] {
        assert_eq!(config.connect_timeout(), Some(Duration::from_secs(5)));
        assert_eq!(config.discovery_timeout(), None);
        assert_eq!(config.tool_timeout(), Some(Duration::from_secs(70)));
        assert_eq!(config.timeout_secs(), (5, 0, 70));
    }
}

#[test]
fn clone_keeps_a_configuration() {
    let copy = address(1, 2, 3).clone();
    assert_eq!(copy.timeout_secs(), (1, 2, 3));
    match copy {
        McpServerConfig::Url { url, .. } => assert_eq!(url, "https://example.org/mcp"),
        McpServerConfig::Command { .. } => panic!("a URL became a command"),
    }
}

#[test]
fn bare_false_disables_oauth() {
    assert!(OAuthConfig::Enabled(false).settings().is_none());
}

#[test]
fn bare_true_means_default_settings() {
    let settings = OAuthConfig::Enabled(true).settings().unwrap();
    assert!(settings.scopes.is_empty());
    assert_eq!(settings.client_id, None);
    assert_eq!(settings.redirect_port, None);
    assert_eq!(settings.redirect_port(), DEFAULT_REDIRECT_PORT);
}

#[test]
fn explicit_settings_are_kept() {
    let config = OAuthConfig::Settings(OAuthSettings {
        scopes: vec!["read".to_string(), "write".to_string()],
        client_id: Some("zero".to_string()),
        redirect_port: Some(4000),
    });
    let settings = config.settings().unwrap();
    assert_eq!(settings.scopes, vec!["read".to_string(), "write".to_string()]);
    assert_eq!(settings.client_id.as_deref(), Some("zero"));
    assert_eq!(settings.redirect_port(), 4000);
}

#[test]
fn redirect_uri_holds_the_port() {
    let mut settings = OAuthSettings::default();
    assert_eq!(settings.redirect_uri(), "http://127.0.0.1:8970/callback");
    for (port, uri) in [
        (0, "http://127.0.0.1:0/callback"),
        (9, "http://127.0.0.1:9/callback"),
        (10, "http://127.0.0.1:10/callback"),
        (4000, "http://127.0.0.1:4000/callback"),
        (65535, "http://127.0.0.1:65535/callback"),
    ] {
        settings.redirect_port = Some(port);
        assert_eq!(settings.redirect_uri(), uri);
    }
}

use std::collections::HashMap;
use std::time::Duration;

use compact_str::CompactString;
use zerostack_mcp::config::McpServerConfig;
use zerostack_mcp::manager::{
    connect_operation, reconnect_operation, ConnectOutcome, McpClientHandle, McpTool, ToolListing,
};
use zerostack_mcp::operation::{
    flatten, timed_operation, McpError, Operation, OperationTimeout, TimedEvent, TimedStep,
};
use zerostack_mcp::McpClientManager;

fn handle(name: &str, service: u32) -> McpClientHandle<u32> {
    McpClientHandle {
        server_name: CompactString::new(name),
        running_service: service,
        discovery_timeout: None,
        tool_timeout: Some(Duration::from_secs(service as u64)),
    }
}

fn manager(handles: Vec<McpClientHandle<u32>>) -> McpClientManager<u32> {
    McpClientManager { handles, notices: vec![CompactString::new("pending")] }
}

fn services(manager: &McpClientManager<u32>) -> Vec<u32> {
    manager.handles.iter().map(|handle| handle.running_service).collect()
}

fn timed_out(operation: &Operation) -> OperationTimeout {
    match timed_operation::<()>(operation, TimedEvent::DeadlineElapsed) {
        TimedStep::Return(result) => result.unwrap_err(),
        TimedStep::Await(_) => panic!("no deadline"),
    }
}

fn config(connect_timeout_secs: u64) -> McpServerConfig {
    McpServerConfig::Command {
        command: "server".to_string(),
        args: Vec::new(),
        env: HashMap::new(),
        connect_timeout_secs,
        discovery_timeout_secs: 2,
        tool_timeout_secs: 3,
    }
}

#[test]
fn connecting_takes_its_limit_from_the_configuration() {
    let operation = connect_operation("files", &config(12));
    assert_eq!(operation.name, "connect");
    assert_eq!(operation.server, "files");
    assert_eq!(operation.tool, None);
    assert_eq!(operation.deadline, Some(Duration::from_secs(12)));

    let operation = reconnect_operation("files", &config(0));
    assert_eq!(operation.name, "reconnect");
    assert_eq!(operation.server, "files");
    assert_eq!(operation.deadline, None);
}

#[test]
fn failures_become_notices_in_order() {
    let late = timed_out(&connect_operation("slow", &config(30)));
    let manager = McpClientManager::connect_all(vec![
        ConnectOutcome { name: "a".to_string(), result: Ok(handle("a", 1)) },
        ConnectOutcome {
            name: "down".to_string(),
            result: flatten(Ok(Err("connection refused".to_string()))),
        },
        ConnectOutcome { name: "b".to_string(), result: Ok(handle("b", 2)) },
        ConnectOutcome { name: "slow".to_string(), result: flatten(Err(late)) },
    ]);
    assert_eq!(services(&manager), vec![1, 2]);
    assert_eq!(
        manager.notices,
        vec![
            CompactString::new("MCP server 'down' not connected: connection refused"),
            CompactString::new(
                "MCP server 'slow' not connected: \
                 MCP connect timed out after 30 seconds for server 'slow'"
            ),
        ]
    );
}

#[test]
fn nothing_configured_means_nothing_connected() {
    let manager: McpClientManager<u32> = McpClientManager::connect_all(Vec::new());
    assert!(manager.handles.is_empty());
    assert!(manager.notices.is_empty());
}

#[test]
fn notices_are_taken_once() {
    let mut manager = manager(vec![handle("a", 1)]);
    assert_eq!(manager.take_notices(), vec![CompactString::new("pending")]);
    assert!(manager.take_notices().is_empty());
    assert_eq!(services(&manager), vec![1]);
}

#[test]
fn reconnect_replaces_every_handle_of_the_server() {
    let mut manager =
        manager(vec![handle("a", 1), handle("b", 2), handle("a", 3), handle("ab", 4)]);
    let outcome: Result<McpClientHandle<u32>, McpError<String>> = Ok(handle("a", 5));
    assert!(manager.reconnect("a", outcome).is_ok());
    assert_eq!(services(&manager), vec![2, 4, 5]);
    assert_eq!(manager.notices.len(), 1);
}

#[test]
fn reconnect_adds_a_server_that_was_not_connected() {
    let mut manager = manager(vec![handle("a", 1)]);
    let outcome: Result<McpClientHandle<u32>, McpError<String>> = Ok(handle("b", 2));
    assert!(manager.reconnect("b", outcome).is_ok());
    assert_eq!(services(&manager), vec![1, 2]);
}

#[test]
fn failed_reconnect_changes_nothing() {
    let mut manager = manager(vec![handle("a", 1), handle("b", 2)]);
    let error = manager.reconnect("a", Err(McpError::Failed("refused".to_string()))).unwrap_err();
    assert_eq!(error.message(), "refused");
    assert_eq!(services(&manager), vec![1, 2]);
    assert_eq!(manager.notices.len(), 1);

    let late = timed_out(&reconnect_operation("a", &config(4)));
    let error: McpError<String> =
        manager.reconnect("a", Err(McpError::TimedOut(late))).unwrap_err();
    assert_eq!(error.message(), "MCP reconnect timed out after 4 seconds for server 'a'");
    assert_eq!(services(&manager), vec![1, 2]);
}

#[test]
fn client_handle_applies_discovery_timeout() {
    let handle = McpClientHandle {
        server_name: CompactString::new("test-server"),
        running_service: 0,
        discovery_timeout: Some(Duration::from_millis(10)),
        tool_timeout: None,
    };
    let operation = handle.list_tools_operation();
    assert_eq!(operation.server, "test-server");
    assert_eq!(operation.tool, None);
    assert!(timed_out(&operation).message().contains("list_tools timed out"));
}

#[test]
fn mcp_tool_applies_tool_timeout() {
    let tool: McpTool<u8, &str, u8, u8> = McpTool {
        server_name: CompactString::new("test-server"),
        definition: "hang",
        peer: 0,
        permission: None,
        ask_tx: None,
        timeout: Some(Duration::from_millis(10)),
    };
    let operation = tool.call_operation(tool.definition);
    assert!(timed_out(&operation).message().contains("call_tool timed out"));
}

#[test]
fn tool_call_carries_the_tool_and_its_limit() {
    let manager = manager(vec![handle("a", 9)]);
    let listings: Vec<ToolListing<u8, &str, String>> =
        vec![ToolListing { peer: 0, tools: Ok(vec!["read"]) }];
    let tools = manager.collect_tools(listings, None::<u8>, None::<u8>);
    let operation = tools[0].call_operation("read");
    assert_eq!(operation.name, "call_tool");
    assert_eq!(operation.server, "a");
    assert_eq!(operation.tool.as_deref(), Some("read"));
    assert_eq!(operation.deadline, Some(Duration::from_secs(9)));
    assert_eq!(
        timed_out(&operation).message(),
        "MCP call_tool timed out after 9 seconds for server 'a' and tool 'read'"
    );
}

#[test]
fn only_the_last_reconnect_counts() {
    let mut manager = manager(vec![handle("a", 1), handle("b", 2)]);
    for service in [3, 4] {
        let outcome: Result<McpClientHandle<u32>, McpError<String>> = Ok(handle("a", service));
        assert!(manager.reconnect("a", outcome).is_ok());
        let names: Vec<&str> =
            manager.handles.iter().map(|handle| handle.server_name.as_str()).collect();
        assert_eq!(names, vec!["b", "a"]);
    }
    assert_eq!(services(&manager), vec![2, 4]);
}

#[test]
fn tools_become_available_after_a_reconnect() {
    let mut manager = manager(vec![handle("a", 1), handle("b", 2)]);
    let outcome: Result<McpClientHandle<u32>, McpError<String>> = Ok(handle("a", 3));
    assert!(manager.reconnect("a", outcome).is_ok());
    let listings: Vec<ToolListing<u8, &str, String>> = vec![
        ToolListing { peer: 0, tools: Ok(vec!["search"]) },
        ToolListing { peer: 1, tools: Ok(vec!["read", "write"]) },
    ];
    let tools = manager.collect_tools(listings, None::<u8>, None::<u8>);
    let seen: Vec<(&str, &str)> =
        tools.iter().map(|tool| (tool.server_name.as_str(), tool.definition)).collect();
    assert_eq!(seen, vec![("b", "search"), ("a", "read"), ("a", "write")]);
    assert_eq!(tools[1].timeout, Some(Duration::from_secs(3)));
}

#[test]
fn connections_are_dropped_one_by_one() {
    let mut manager = manager(vec![handle("a", 1), handle("b", 2)]);
    assert_eq!(manager.disconnect_next(), Some(CompactString::new("a")));
    assert_eq!(services(&manager), vec![2]);
    assert_eq!(manager.disconnect_next(), Some(CompactString::new("b")));
    assert_eq!(manager.disconnect_next(), None);
    assert_eq!(manager.notices.len(), 1);
}

#[test]
fn tools_of_all_servers_are_collected_in_order() {
    let manager = manager(vec![handle("a", 1), handle("down", 2), handle("c", 3)]);
    let listings: Vec<ToolListing<String, &str, String>> = vec![
        ToolListing { peer: "peer-a".to_string(), tools: Ok(vec!["read", "write"]) },
        ToolListing {
            peer: "peer-down".to_string(),
            tools: Err(McpError::Failed("gone".to_string())),
        },
        ToolListing { peer: "peer-c".to_string(), tools: Ok(vec!["search"]) },
    ];
    let tools = manager.collect_tools(listings, Some(7u8), None::<u16>);
    let seen: Vec<(&str, &str, &str, Option<u64>)> = tools
        .iter()
        .map(|tool| {
            (
                tool.server_name.as_str(),
                tool.definition,
                tool.peer.as_str(),
                tool.timeout.map(|limit| limit.as_secs()),
            )
        })
        .collect();
    assert_eq!(
        seen,
        vec![
            ("a", "read", "peer-a", Some(1)),
            ("a", "write", "peer-a", Some(1)),
            ("c", "search", "peer-c", Some(3)),
        ]
    );
    assert!(tools.iter().all(|tool| tool.permission == Some(7) && tool.ask_tx.is_none()));
}

#[test]
fn shutdown_names_the_servers_in_order() {
    let names = manager(vec![handle("a", 1), handle("a rather long name of a server", 2)]).shutdown();
    assert_eq!(
        names,
        vec![
            CompactString::new("a"),
            CompactString::new("a rather long name of a server"),
        ]
    );
}

use std::collections::HashSet;

use mcp_gateway::config::{BuiltinToolType, McpConfig, McpServerConfig, McpTransport};
use mcp_gateway::execution::{CallOutcome, ToolExecutionInput};
use mcp_gateway::inventory::{QualifiedToolName, ResponseFormat, Tool, ToolEntry};
use mcp_gateway::json::Json;
use mcp_gateway::orchestrator::McpOrchestrator;
use mcp_gateway::session::{
    are_lists_of, build_exposed_function_tools, tool_lists, McpServerBinding, McpToolSession,
    DEFAULT_SERVER_LABEL,
};
use mcp_gateway::wire::parse;

fn new_test() -> McpOrchestrator {
    new_test_with_config(McpConfig::default())
}

fn new_test_with_config(config: McpConfig) -> McpOrchestrator {
    match McpOrchestrator::new(config) {
        Ok(orchestrator) => orchestrator,
        Err(e) => panic!("{e:?}"),
    }
}

fn create_test_tool(name: &str) -> Tool {
    Tool {
        name: name.to_string(),
        title: None,
        description: Some(format!("Test tool: {name}")),
        output_schema: None,
        annotations: None,
        icons: None,
        input_schema: Json::Object(Vec::new()),
    }
}

fn add(orchestrator: &mut McpOrchestrator, server: &str, tool: &str) {
    orchestrator
        .tool_inventory
        .insert_entry(ToolEntry::from_server_tool(server, create_test_tool(tool)));
}

fn binding(label: &str, server_key: &str) -> McpServerBinding {
    McpServerBinding {
        label: label.to_string(),
        server_key: server_key.to_string(),
        allowed_tools: None,
    }
}

fn sse_server(name: &str, url: &str) -> McpServerConfig {
    McpServerConfig {
        name: name.to_string(),
        transport: McpTransport::Sse {
            url: url.to_string(),
            token: None,
            headers: Vec::new(),
        },
        proxy: None,
        required: false,
        tools: None,
        builtin_type: None,
        builtin_tool_name: None,
        internal: false,
    }
}

fn exposed_name(session: &McpToolSession<'_>, server: &str, tool: &str) -> Option<String> {
    let wanted = QualifiedToolName::new(server, tool);
    session
        .exposed_name_by_qualified()
        .into_iter()
        .find(|(name, _)| *name == wanted)
        .map(|(_, exposed)| exposed)
}

#[test]
fn test_session_creation_keeps_servers() {
    let orchestrator = new_test();
    let mcp_servers = vec![binding("label1", "key1"), binding("label2", "key2")];

    let session = McpToolSession::new(&orchestrator, mcp_servers, "test-request");

    assert_eq!(session.mcp_servers().len(), 2);
    assert_eq!(session.mcp_servers()[0].label, "label1");
    assert_eq!(session.mcp_servers()[0].server_key, "key1");
}

#[test]
fn test_session_empty_servers() {
    let orchestrator = new_test();
    let session = McpToolSession::new(&orchestrator, vec![], "test-request");

    assert!(session.mcp_servers().is_empty());
    assert!(session.mcp_tools().is_empty());
}

#[test]
fn test_resolve_tool_server_label_fallback() {
    let orchestrator = new_test();
    let session = McpToolSession::new(
        &orchestrator,
        vec![binding("my_label", "my_key")],
        "test-request",
    );

    // Tool doesn't exist, should fall back to first label
    let label = session.resolve_tool_server_label("nonexistent_tool");
    assert_eq!(label, "my_label");
}

#[test]
fn test_resolve_tool_server_label_no_servers() {
    let orchestrator = new_test();
    let session = McpToolSession::new(&orchestrator, vec![], "test-request");

    // No servers, should fall back to DEFAULT_SERVER_LABEL
    let label = session.resolve_tool_server_label("nonexistent_tool");
    assert_eq!(label, DEFAULT_SERVER_LABEL);
}

#[test]
fn test_tool_response_format_default() {
    let orchestrator = new_test();
    let session = McpToolSession::new(&orchestrator, vec![], "test-request");

    let format = session.tool_response_format("nonexistent");
    assert!(matches!(format, ResponseFormat::Passthrough));
}

#[test]
fn test_has_exposed_tool_with_inventory() {
    let mut orchestrator = new_test();
    add(&mut orchestrator, "server1", "test_tool");

    let session = McpToolSession::new(
        &orchestrator,
        vec![binding("label1", "server1")],
        "test-request",
    );

    assert!(session.has_exposed_tool("test_tool"));
    assert_eq!(session.mcp_tools().len(), 1);
}

#[test]
fn test_resolve_label_with_inventory() {
    let mut orchestrator = new_test();
    add(&mut orchestrator, "server1", "test_tool");

    let session = McpToolSession::new(
        &orchestrator,
        vec![binding("my_server", "server1")],
        "test-request",
    );

    let label = session.resolve_tool_server_label("test_tool");
    assert_eq!(label, "my_server");
}

#[test]
fn test_exposed_names_are_unique_for_tool_name_collisions() {
    let mut orchestrator = new_test();
    add(&mut orchestrator, "server1", "shared_tool");
    add(&mut orchestrator, "server2", "shared_tool");

    let session = McpToolSession::new(
        &orchestrator,
        vec![binding("alpha", "server1"), binding("beta", "server2")],
        "test-request",
    );

    let name_a = exposed_name(&session, "server1", "shared_tool")
        .expect("missing exposed name for server1 tool");
    let name_b = exposed_name(&session, "server2", "shared_tool")
        .expect("missing exposed name for server2 tool");

    assert_ne!(name_a, name_b);
    assert_ne!(name_a, "shared_tool");
    assert_ne!(name_b, "shared_tool");
    assert!(session.has_exposed_tool(&name_a));
    assert!(session.has_exposed_tool(&name_b));
}

#[test]
fn test_exposed_names_handle_pre_suffixed_name_conflicts() {
    let mut orchestrator = new_test();
    add(&mut orchestrator, "s1", "foo");
    add(&mut orchestrator, "s2", "foo_1");
    add(&mut orchestrator, "s3", "foo");

    let session = McpToolSession::new(
        &orchestrator,
        vec![binding("a", "s1"), binding("b", "s2"), binding("c", "s3")],
        "test-request",
    );

    let exposed_names: HashSet<String> = session
        .exposed_name_by_qualified()
        .into_iter()
        .map(|(_, name)| name)
        .collect();
    assert_eq!(exposed_names.len(), 3);
}

fn create_builtin_orchestrator() -> McpOrchestrator {
    let config = McpConfig {
        servers: vec![
            McpServerConfig {
                builtin_type: Some(BuiltinToolType::WebSearchPreview),
                builtin_tool_name: Some("brave_web_search".to_string()),
                ..sse_server("brave-builtin", "http://localhost:8001/sse")
            },
            sse_server("regular-server", "http://localhost:3000/sse"),
        ],
        ..Default::default()
    };

    new_test_with_config(config)
}

#[test]
fn test_mcp_servers_filters_builtin() {
    let orchestrator = create_builtin_orchestrator();
    let mcp_servers = vec![
        binding("brave", "brave-builtin"),
        binding("regular", "regular-server"),
    ];

    let session = McpToolSession::new(&orchestrator, mcp_servers, "test-request");

    // mcp_servers() should only return non-builtin servers
    let visible = session.mcp_servers();
    assert_eq!(visible.len(), 1);
    assert_eq!(visible[0].label, "regular");
    assert_eq!(visible[0].server_key, "regular-server");

    // all_mcp_servers() should return everything
    assert_eq!(session.all_mcp_servers().len(), 2);
}

#[test]
fn test_allowed_tools_filters_inventory_and_list_tools() {
    let mut orchestrator = new_test();
    add(&mut orchestrator, "server1", "brave_web_search");
    add(&mut orchestrator, "server1", "brave_local_search");

    let session = McpToolSession::new(
        &orchestrator,
        vec![McpServerBinding {
            label: "mock".to_string(),
            server_key: "server1".to_string(),
            allowed_tools: Some(vec!["brave_web_search".to_string()]),
        }],
        "test-request",
    );

    assert!(session.has_exposed_tool("brave_web_search"));
    assert!(!session.has_exposed_tool("brave_local_search"));
    assert_eq!(session.mcp_tools().len(), 1);

    let listed = session.list_tools_for_server("server1");
    assert_eq!(listed.len(), 1);
    assert_eq!(listed[0].tool_name(), "brave_web_search");
}

#[test]
fn test_is_internal_tool_for_internal_server() {
    let config = McpConfig {
        servers: vec![McpServerConfig {
            internal: true,
            ..sse_server("internal-server", "http://localhost:3000/sse")
        }],
        ..Default::default()
    };

    let mut orchestrator = new_test_with_config(config);
    add(&mut orchestrator, "internal-server", "internal_search");

    let session = McpToolSession::new(
        &orchestrator,
        vec![binding("internal-label", "internal-server")],
        "test-request",
    );

    assert!(session.has_exposed_tool("internal_search"));
    assert!(session.is_internal_tool("internal_search"));
    assert!(session.is_internal_server_label("internal-label"));
}

#[test]
fn test_inject_mcp_output_items_ordering() {
    let mut orchestrator = new_test();
    add(&mut orchestrator, "srv_a", "tool_a");
    add(&mut orchestrator, "srv_b", "tool_b");

    let session = McpToolSession::new(
        &orchestrator,
        vec![binding("Server A", "srv_a"), binding("Server B", "srv_b")],
        "test-ordering",
    );

    let message = |id: &str| {
        parse(&format!(
            r#"{{"type":"message","id":"{id}","role":"assistant","content":[],"status":"completed"}}"#
        ))
        .unwrap()
    };
    let call = |id: &str, name: &str, output: &str, label: &str| {
        parse(&format!(
            r#"{{"type":"mcp_call","id":"{id}","status":"completed","approval_request_id":null,"arguments":"{{}}","error":null,"name":"{name}","output":"{output}","server_label":"{label}"}}"#
        ))
        .unwrap()
    };
    let list = |label: &str| {
        parse(&format!(
            r#"{{"type":"mcp_list_tools","id":"mcpl_1","server_label":"{label}","tools":[]}}"#
        ))
        .unwrap()
    };

    let mut output = vec![message("msg_existing_1"), message("msg_existing_2")];
    let tool_call_items = vec![
        call("call_1", "tool_a", "result_a", "Server A"),
        call("call_2", "tool_b", "result_b", "Server B"),
    ];
    let lists = tool_lists(&session, session.mcp_servers());
    let list_tools_items: Vec<Json> = lists.iter().map(|(label, _)| list(label)).collect();
    assert!(are_lists_of(&list_tools_items, session.mcp_servers()));

    session.inject_mcp_output_items(&mut output, list_tools_items, tool_call_items);

    // Expected ordering: 2 mcp_list_tools + 2 mcp_call + 2 messages = 6
    assert_eq!(output.len(), 6, "expected 6 items in output");

    // [0..2] mcp_list_tools, one per server, in server order
    assert_eq!(output[0].get_str("type"), Some("mcp_list_tools"));
    assert_eq!(output[0].get_str("server_label"), Some("Server A"));
    assert_eq!(output[1].get_str("type"), Some("mcp_list_tools"));
    assert_eq!(output[1].get_str("server_label"), Some("Server B"));

    // [2..4] tool call items in original order
    assert_eq!(output[2].get_str("type"), Some("mcp_call"));
    assert_eq!(output[2].get_str("id"), Some("call_1"));
    assert_eq!(output[3].get_str("type"), Some("mcp_call"));
    assert_eq!(output[3].get_str("id"), Some("call_2"));

    // [4..6] existing items in original order
    assert_eq!(output[4].get_str("type"), Some("message"));
    assert_eq!(output[4].get_str("id"), Some("msg_existing_1"));
    assert_eq!(output[5].get_str("type"), Some("message"));
    assert_eq!(output[5].get_str("id"), Some("msg_existing_2"));
}

#[test]
fn test_allowed_tools_filters_only_target_server() {
    let mut orchestrator = new_test();
    add(&mut orchestrator, "server1", "brave_web_search");
    add(&mut orchestrator, "server1", "brave_local_search");
    add(&mut orchestrator, "server2", "deepwiki_search");
    add(&mut orchestrator, "server2", "deepwiki_read");

    let session = McpToolSession::new(
        &orchestrator,
        vec![
            McpServerBinding {
                label: "brave".to_string(),
                server_key: "server1".to_string(),
                allowed_tools: Some(vec!["brave_web_search".to_string()]),
            },
            binding("deepwiki", "server2"),
        ],
        "test-request",
    );

    // server1 is filtered
    assert!(session.has_exposed_tool("brave_web_search"));
    assert!(!session.has_exposed_tool("brave_local_search"));
    let listed_server1 = session.list_tools_for_server("server1");
    assert_eq!(listed_server1.len(), 1);
    assert_eq!(listed_server1[0].tool_name(), "brave_web_search");

    // server2 is unfiltered
    assert!(session.has_exposed_tool("deepwiki_search"));
    assert!(session.has_exposed_tool("deepwiki_read"));
    let listed_server2 = session.list_tools_for_server("server2");
    assert_eq!(listed_server2.len(), 2);
}

#[test]
fn shared_names_carry_the_label_of_their_server() {
    let tools = vec![
        ToolEntry::from_server_tool("k1", create_test_tool("search")),
        ToolEntry::from_server_tool("k2", create_test_tool("search")),
        ToolEntry::from_server_tool("k2", create_test_tool("read")),
    ];
    let servers = vec![binding("My Server", "k1"), binding("other", "k2")];
    let exposed = build_exposed_function_tools(&tools, &servers);
    let names: Vec<&str> = exposed.iter().map(|e| e.exposed_name.as_str()).collect();
    assert_eq!(names, vec!["mcp_my_server_search", "mcp_other_search", "read"]);
    assert_eq!(exposed[0].server_label, "My Server");
    assert_eq!(exposed[0].server_key, "k1");
    assert_eq!(exposed[0].resolved_tool_name, "search");
}

#[test]
fn taken_names_get_a_number() {
    let tools = vec![
        ToolEntry::from_server_tool("k1", create_test_tool("t")),
        ToolEntry::from_server_tool("k2", create_test_tool("t")),
    ];
    let servers = vec![binding("same", "k1"), binding("Same", "k2")];
    let exposed = build_exposed_function_tools(&tools, &servers);
    assert_eq!(exposed[0].exposed_name, "mcp_same_t");
    assert_eq!(exposed[1].exposed_name, "mcp_same_t_1");
}

#[test]
fn an_unknown_tool_is_answered_with_an_error() {
    let orchestrator = new_test();
    let session = McpToolSession::new(&orchestrator, vec![binding("lab", "key")], "r");
    let output = session.execute_tool(
        ToolExecutionInput {
            call_id: "c1".to_string(),
            tool_name: "nothing".to_string(),
            arguments: Json::Object(Vec::new()),
        },
        CallOutcome::PendingApproval,
        0,
    );
    assert_eq!(output.call_id, "c1");
    assert_eq!(output.tool_name, "nothing");
    assert_eq!(output.server_key, "unknown");
    assert_eq!(output.server_label, "lab");
    assert!(output.is_error);
    assert_eq!(
        output.error_message.as_deref(),
        Some("Tool 'nothing' is not in this session's exposed tool map")
    );
}

#[test]
fn a_tool_is_reported_under_its_exposed_name() {
    let mut orchestrator = new_test();
    add(&mut orchestrator, "k1", "t");
    add(&mut orchestrator, "k2", "t");
    let session = McpToolSession::new(
        &orchestrator,
        vec![binding("a", "k1"), binding("b", "k2")],
        "r",
    );
    let output = session.execute_tool(
        ToolExecutionInput {
            call_id: "c1".to_string(),
            tool_name: "mcp_b_t".to_string(),
            arguments: parse(r#"{"q":1}"#).unwrap(),
        },
        CallOutcome::Answered {
            content: parse(r#"[{"type":"text","text":"hi"}]"#).unwrap(),
            is_error: None,
        },
        7,
    );
    assert_eq!(output.tool_name, "mcp_b_t");
    assert_eq!(output.server_key, "k2");
    assert_eq!(output.server_label, "b");
    assert_eq!(output.arguments_str, r#"{"q":1}"#);
    assert_eq!(output.output, parse(r#"[{"type":"text","text":"hi"}]"#).unwrap());
    assert!(!output.is_error);
    assert_eq!(output.error_message, None);
    assert_eq!(output.duration_ms, 7);
}

#[test]
fn a_list_of_tools_has_the_label_and_the_tools_of_its_server() {
    let mut orchestrator = new_test();
    add(&mut orchestrator, "srv_a", "tool_a");
    add(&mut orchestrator, "srv_b", "tool_b");
    add(&mut orchestrator, "srv_b", "tool_c");
    let session = McpToolSession::new(
        &orchestrator,
        vec![binding("B", "srv_b"), binding("A", "srv_a")],
        "r",
    );
    let lists = tool_lists(&session, session.mcp_servers());
    let names: Vec<(&str, Vec<&str>)> = lists
        .iter()
        .map(|(label, tools)| (label.as_str(), tools.iter().map(|t| t.tool_name()).collect()))
        .collect();
    assert_eq!(names, vec![("B", vec!["tool_b", "tool_c"]), ("A", vec!["tool_a"])]);
    let of_type = |name: &str, label: &str| {
        parse(&format!(r#"{{"type":"{name}","server_label":"{label}"}}"#)).unwrap()
    };
    let item = |label: &str| of_type("mcp_list_tools", label);
    assert!(are_lists_of(&vec![item("B"), item("A")], session.mcp_servers()));
    assert!(!are_lists_of(&vec![item("A"), item("B")], session.mcp_servers()));
    assert!(!are_lists_of(&vec![item("B")], session.mcp_servers()));
    assert!(!are_lists_of(&vec![item("B"), Json::Null], session.mcp_servers()));
    assert!(!are_lists_of(&vec![item("B"), of_type("mcp_call", "A")], session.mcp_servers()));
}

use mcp_gateway::approval::{
    after_decision, after_outcome, ApprovalDecision, ApprovalMode, ApprovalOutcome, ApprovalStep,
    McpApprovalRequest, TenantContext,
};
use mcp_gateway::calling::{reconnect_delay, CallAction, CallEvent, CallPhase, ToolCall};
use mcp_gateway::config::{
    ArgMappingConfig, BuiltinToolType, McpConfig, McpServerConfig, McpTransport,
    ResponseFormatConfig, ToolConfig,
};
use mcp_gateway::context::{CallTarget, McpRequestContext};
use mcp_gateway::error::McpError;
use mcp_gateway::execution::{
    apply_arg_mapping, call_error, coerce_arg_types, make_request, map_arguments, numeric_texts,
    prepare_call, CallFailure, CallOutcome, ToolCallResult, ToolExecutionInput,
};
use mcp_gateway::inventory::{
    ArgMapping, Offer, QualifiedToolName, ResponseFormat, Tool, ToolAnnotations, ToolCategory,
    ToolEntry,
};
use mcp_gateway::json::Json;
use mcp_gateway::orchestrator::{
    shutdown_step, DynamicStep, McpOrchestrator, ReconnectStep, ShutdownStep, StaticConnection,
};
use mcp_gateway::pool::PoolKey;
use mcp_gateway::wire::parse;

fn created(config: McpConfig) -> McpOrchestrator {
    match McpOrchestrator::new(config) {
        Ok(orchestrator) => orchestrator,
        Err(e) => panic!("{e:?}"),
    }
}

fn new_test() -> McpOrchestrator {
    created(McpConfig::default())
}

fn create_test_tool(name: &str) -> Tool {
    Tool {
        name: name.to_string(),
        title: None,
        description: Some(format!("Test tool: {name}")),
        output_schema: None,
        annotations: None,
        icons: None,
        input_schema: Json::Object(Vec::new()),
    }
}

fn add(orchestrator: &mut McpOrchestrator, server: &str, tool: &str) {
    orchestrator
        .tool_inventory
        .insert_entry(ToolEntry::from_server_tool(server, create_test_tool(tool)));
}

fn sse_server(name: &str, url: &str) -> McpServerConfig {
    McpServerConfig {
        name: name.to_string(),
        transport: McpTransport::Sse {
            url: url.to_string(),
            token: None,
            headers: Vec::new(),
        },
        proxy: None,
        required: false,
        tools: None,
        builtin_type: None,
        builtin_tool_name: None,
        internal: false,
    }
}

fn matching<'a>(tools: &'a [ToolEntry], name: &str, allowed: &[&str]) -> Vec<&'a ToolEntry> {
    tools
        .iter()
        .filter(|e| e.tool_name() == name && allowed.contains(&e.server_key()))
        .collect()
}

fn connection(client: u64, tools: Vec<&str>) -> Result<StaticConnection, McpError> {
    Ok(StaticConnection {
        client,
        tools: Some(tools.into_iter().map(create_test_tool).collect()),
        prompts: None,
        resources: None,
    })
}

#[test]
fn test_orchestrator_creation() {
    let orchestrator = new_test();
    assert!(orchestrator.list_servers().is_empty());
}

#[test]
fn test_request_context_creation() {
    let orchestrator = new_test();
    let ctx = orchestrator.create_request_context(
        "req-1",
        TenantContext::new("tenant-1"),
        ApprovalMode::PolicyOnly,
    );

    assert_eq!(ctx.request_id, "req-1");
    assert_eq!(ctx.tenant_ctx.tenant_id.as_str(), "tenant-1");
}

#[test]
fn test_handler_context() {
    let orchestrator = new_test();
    let ctx = orchestrator.create_request_context(
        "req-1",
        TenantContext::new("tenant-1"),
        ApprovalMode::Interactive,
    );

    let handler_ctx = ctx.handler_context();
    assert_eq!(handler_ctx.request_id, "req-1");
    assert_eq!(handler_ctx.approval_mode, ApprovalMode::Interactive);
}

#[test]
fn test_tool_inventory_access() {
    let mut orchestrator = new_test();
    add(&mut orchestrator, "test_server", "test_tool");

    assert!(orchestrator.has_tool("test_server", "test_tool"));
    assert!(!orchestrator.has_tool("other_server", "test_tool"));
}

#[test]
fn test_alias_registration() {
    let mut orchestrator = new_test();
    add(&mut orchestrator, "brave", "brave_web_search");

    let result = orchestrator.register_alias(
        "web_search",
        "brave",
        "brave_web_search",
        None,
        ResponseFormat::WebSearchCall,
    );

    assert!(result.is_ok());
    assert!(orchestrator
        .tool_inventory
        .resolve_alias("web_search")
        .is_some());
}

#[test]
fn test_alias_registration_missing_target() {
    let mut orchestrator = new_test();

    let result = orchestrator.register_alias(
        "web_search",
        "missing_server",
        "missing_tool",
        None,
        ResponseFormat::Passthrough,
    );

    assert!(result.is_err());
    assert_eq!(
        result,
        Err(McpError::ToolNotFound(
            "missing_server:missing_tool".to_string()
        ))
    );
}

#[test]
fn test_arg_mapping() {
    let mapping = ArgMapping::new()
        .with_rename("query", "search_query")
        .with_default("limit", parse("10").unwrap());

    let args = parse(r#"{"query": "rust programming"}"#).unwrap();

    let result = apply_arg_mapping(args, &mapping);

    assert!(result.is_object());
    assert!(result.has("search_query"));
    assert!(!result.has("query"));
    assert_eq!(result.get("limit"), Some(&parse("10").unwrap()));
    assert_eq!(result.get_str("search_query"), Some("rust programming"));
}

#[test]
fn test_determine_approval_mode() {
    assert_eq!(
        McpOrchestrator::determine_approval_mode(true),
        ApprovalMode::Interactive
    );
    assert_eq!(
        McpOrchestrator::determine_approval_mode(false),
        ApprovalMode::PolicyOnly
    );
}

#[test]
fn test_call_tool_by_name_finds_unique_tool() {
    let mut orchestrator = new_test();
    add(&mut orchestrator, "server1", "unique_tool");

    let tools = orchestrator.list_tools();
    let found = matching(&tools, "unique_tool", &["server1"]);

    assert_eq!(found.len(), 1);
    assert_eq!(found[0].server_key(), "server1");
}

#[test]
fn test_call_tool_by_name_collision_detection() {
    let mut orchestrator = new_test();
    add(&mut orchestrator, "server1", "shared_tool");
    add(&mut orchestrator, "server2", "shared_tool");

    let tools = orchestrator.list_tools();
    let found = matching(&tools, "shared_tool", &["server1", "server2"]);

    // Should find 2 matches (collision)
    assert_eq!(found.len(), 2);
}

#[test]
fn test_call_tool_by_name_no_collision_with_single_server() {
    let mut orchestrator = new_test();
    add(&mut orchestrator, "server1", "shared_tool");
    add(&mut orchestrator, "server2", "shared_tool");

    let tools = orchestrator.list_tools();
    let found = matching(&tools, "shared_tool", &["server1"]);

    // Should find only 1 match (no collision)
    assert_eq!(found.len(), 1);
    assert_eq!(found[0].server_key(), "server1");
}

#[test]
fn test_call_tool_by_name_tool_not_found() {
    let mut orchestrator = new_test();
    add(&mut orchestrator, "server1", "existing_tool");

    let tools = orchestrator.list_tools();
    let found = matching(&tools, "nonexistent_tool", &["server1"]);

    // Should find 0 matches
    assert_eq!(found.len(), 0);
}

#[test]
fn test_find_builtin_server_web_search() {
    let orchestrator = created(McpConfig {
        servers: vec![McpServerConfig {
            builtin_type: Some(BuiltinToolType::WebSearchPreview),
            builtin_tool_name: Some("brave_web_search".to_string()),
            ..sse_server("brave", "https://mcp.brave.com/sse")
        }],
        ..Default::default()
    });

    // Should find the brave server for web_search_preview
    let result = orchestrator.find_builtin_server(BuiltinToolType::WebSearchPreview);
    assert!(result.is_some());

    let (server_key, tool_name, response_format) = result.unwrap();
    assert_eq!(server_key, "brave");
    assert_eq!(tool_name, "brave_web_search");
    assert_eq!(response_format, ResponseFormat::WebSearchCall);

    // Should NOT find a server for code_interpreter
    let result = orchestrator.find_builtin_server(BuiltinToolType::CodeInterpreter);
    assert!(result.is_none());
}

fn passthrough_tools(tool: &str) -> Option<Vec<(String, ToolConfig)>> {
    Some(vec![(
        tool.to_string(),
        ToolConfig {
            alias: None,
            response_format: ResponseFormatConfig::Passthrough,
            arg_mapping: None,
        },
    )])
}

#[test]
fn test_find_builtin_server_with_custom_response_format() {
    let orchestrator = created(McpConfig {
        servers: vec![McpServerConfig {
            tools: passthrough_tools("my_search"),
            builtin_type: Some(BuiltinToolType::WebSearchPreview),
            builtin_tool_name: Some("my_search".to_string()),
            ..sse_server("custom-search", "http://localhost:3000/sse")
        }],
        ..Default::default()
    });

    let result = orchestrator.find_builtin_server(BuiltinToolType::WebSearchPreview);
    assert!(result.is_some());

    let (server_key, tool_name, response_format) = result.unwrap();
    assert_eq!(server_key, "custom-search");
    assert_eq!(tool_name, "my_search");
    // Should use the custom Passthrough format, not the default WebSearchCall
    assert_eq!(response_format, ResponseFormat::Passthrough);
}

#[test]
fn test_find_builtin_server_no_config() {
    let orchestrator = new_test();

    assert!(orchestrator
        .find_builtin_server(BuiltinToolType::WebSearchPreview)
        .is_none());
    assert!(orchestrator
        .find_builtin_server(BuiltinToolType::CodeInterpreter)
        .is_none());
    assert!(orchestrator
        .find_builtin_server(BuiltinToolType::FileSearch)
        .is_none());
}

#[test]
fn test_apply_builtin_response_format() {
    let server = McpServerConfig {
        builtin_type: Some(BuiltinToolType::WebSearchPreview),
        builtin_tool_name: Some("brave_search".to_string()),
        ..sse_server("brave", "http://localhost:3000/sse")
    };
    let mut orchestrator = created(McpConfig {
        servers: vec![server.clone()],
        ..Default::default()
    });

    // The tool is registered with the default format
    let entry = ToolEntry::from_server_tool("brave", create_test_tool("brave_search"));
    assert_eq!(entry.response_format, ResponseFormat::Passthrough);
    orchestrator.tool_inventory.insert_entry(entry);

    orchestrator.apply_builtin_response_format(&server);

    let entry = orchestrator
        .tool_inventory
        .get_entry("brave", "brave_search")
        .expect("Tool should exist");
    assert_eq!(
        entry.response_format,
        ResponseFormat::WebSearchCall,
        "Builtin type should auto-apply WebSearchCall format"
    );
}

#[test]
fn test_apply_builtin_response_format_with_explicit_override() {
    let server = McpServerConfig {
        tools: passthrough_tools("brave_search"),
        builtin_type: Some(BuiltinToolType::WebSearchPreview),
        builtin_tool_name: Some("brave_search".to_string()),
        ..sse_server("brave", "http://localhost:3000/sse")
    };
    let mut orchestrator = created(McpConfig {
        servers: vec![server.clone()],
        ..Default::default()
    });
    add(&mut orchestrator, "brave", "brave_search");

    orchestrator.apply_builtin_response_format(&server);

    let entry = orchestrator
        .tool_inventory
        .get_entry("brave", "brave_search")
        .expect("Tool should exist");
    assert_eq!(
        entry.response_format,
        ResponseFormat::Passthrough,
        "Explicit override should be preserved"
    );
}

#[test]
fn an_empty_configuration_starts_without_servers() {
    let orchestrator = match McpOrchestrator::start(McpConfig::default(), &vec![]) {
        Ok(o) => o,
        Err(e) => panic!("{e:?}"),
    };
    assert_eq!(orchestrator.list_servers().len(), 0, "Should have no servers");
    assert_eq!(orchestrator.list_tools().len(), 0, "Should have no tools");
}

#[test]
fn a_connected_server_brings_its_tools() {
    let mut orchestrator = new_test();
    let config = sse_server("mock_server", "http://localhost:1/mcp");
    let result = orchestrator.connect_static_server(
        &config,
        &connection(1, vec!["brave_web_search", "brave_local_search"]),
    );
    assert!(result.is_ok(), "Should connect to mock server");
    let servers = orchestrator.list_servers();
    assert_eq!(servers.len(), 1);
    assert!(servers.contains(&"mock_server".to_string()));
    let tools = orchestrator.list_tools();
    assert_eq!(tools.len(), 2, "Should have 2 tools from mock server");
    assert!(orchestrator.has_tool("mock_server", "brave_web_search"));
    assert!(orchestrator.has_tool("mock_server", "brave_local_search"));
}

#[test]
fn an_optional_server_may_be_missing() {
    let config = McpConfig {
        servers: vec![McpServerConfig {
            transport: McpTransport::Stdio {
                command: "/nonexistent/command".to_string(),
                args: vec![],
                envs: vec![],
            },
            ..sse_server("nonexistent", "")
        }],
        ..Default::default()
    };
    let refused = vec![Err(McpError::Transport("no such file".to_string()))];
    let orchestrator = match McpOrchestrator::start(config, &refused) {
        Ok(o) => o,
        Err(_) => panic!("Manager should succeed even if servers fail to connect"),
    };
    assert_eq!(
        orchestrator.list_servers().len(),
        0,
        "Should have no connected servers"
    );
}

#[test]
fn an_unknown_tool_is_not_found() {
    let mut orchestrator = new_test();
    add(&mut orchestrator, "mock_server", "brave_web_search");
    let result = orchestrator.call_entry("mock_server", "unknown_tool");
    assert!(result.is_err(), "Should fail for unknown tool");
    match result {
        Err(McpError::ToolNotFound(name)) => assert_eq!(name, "mock_server:unknown_tool"),
        _ => panic!("Expected ToolNotFound error"),
    }
}

#[test]
fn a_required_server_must_answer() {
    let config = McpConfig {
        servers: vec![McpServerConfig {
            required: true,
            ..sse_server("needed", "http://x")
        }],
        ..Default::default()
    };
    let refused = vec![Err(McpError::ConnectionFailed("refused".to_string()))];
    match McpOrchestrator::start(config, &refused) {
        Err(e) => assert_eq!(e, McpError::ConnectionFailed("refused".to_string())),
        Ok(_) => panic!("started without a required server"),
    }
}

#[test]
fn a_wrong_configuration_is_refused() {
    let config = McpConfig {
        servers: vec![McpServerConfig {
            builtin_type: Some(BuiltinToolType::FileSearch),
            ..sse_server("s", "http://x")
        }],
        ..Default::default()
    };
    match McpOrchestrator::new(config) {
        Err(e) => assert_eq!(
            e,
            McpError::Config(
                "server 's': builtin_type is set but builtin_tool_name is missing".to_string()
            )
        ),
        Ok(_) => panic!("accepted"),
    }
}

#[test]
fn connecting_twice_changes_nothing() {
    let mut orchestrator = new_test();
    let config = sse_server("s", "http://x");
    assert!(orchestrator
        .connect_static_server(&config, &connection(1, vec!["a"]))
        .is_ok());
    assert!(orchestrator
        .connect_static_server(&config, &connection(2, vec!["b"]))
        .is_ok());
    assert_eq!(orchestrator.route("s"), Ok(1));
    assert!(orchestrator.has_tool("s", "a"));
    assert!(!orchestrator.has_tool("s", "b"));
    assert!(orchestrator.is_connected("s"));
    assert!(!orchestrator.is_connected("t"));
}

#[test]
fn tool_settings_apply_on_connection() {
    let mut orchestrator = new_test();
    let config = McpServerConfig {
        tools: Some(vec![
            (
                "search".to_string(),
                ToolConfig {
                    alias: Some("web".to_string()),
                    response_format: ResponseFormatConfig::WebSearchCall,
                    arg_mapping: Some(ArgMappingConfig {
                        renames: vec![("q".to_string(), "query".to_string())],
                        defaults: vec![("count".to_string(), parse("5").unwrap())],
                    }),
                },
            ),
            (
                "run".to_string(),
                ToolConfig {
                    alias: None,
                    response_format: ResponseFormatConfig::CodeInterpreterCall,
                    arg_mapping: None,
                },
            ),
            ("missing".to_string(), ToolConfig::default()),
        ]),
        ..sse_server("s", "http://x")
    };
    assert!(orchestrator
        .connect_static_server(&config, &connection(1, vec!["search", "run"]))
        .is_ok());
    assert_eq!(
        orchestrator.get_tool("s", "run").unwrap().response_format,
        ResponseFormat::CodeInterpreterCall
    );
    assert_eq!(
        orchestrator.tool_inventory.resolve_alias("web"),
        Some(QualifiedToolName::new("s", "search"))
    );
    let alias = orchestrator.get_tool("alias", "web").unwrap();
    assert_eq!(alias.response_format, ResponseFormat::WebSearchCall);
    let mapped = map_arguments(&alias, parse(r#"{"q":"x"}"#).unwrap());
    assert_eq!(mapped.get_str("query"), Some("x"));
    assert_eq!(mapped.get("count"), Some(&parse("5").unwrap()));
    let (server, request) = prepare_call(&alias, mapped, &Vec::new());
    assert_eq!(server, "s");
    assert_eq!(request.name, "search");
    assert_eq!(request.arguments.unwrap().len(), 2);
}

#[test]
fn given_arguments_win_over_defaults() {
    let mapping = ArgMapping::new()
        .with_rename("a", "b")
        .with_default("b", parse("1").unwrap())
        .with_default("c", parse("2").unwrap());
    let mapped = apply_arg_mapping(parse(r#"{"a":9,"z":0}"#).unwrap(), &mapping);
    assert_eq!(mapped.get("b"), Some(&parse("9").unwrap()));
    assert_eq!(mapped.get("c"), Some(&parse("2").unwrap()));
    assert_eq!(mapped.get("z"), Some(&parse("0").unwrap()));
    let untouched = apply_arg_mapping(parse("[1]").unwrap(), &mapping);
    assert_eq!(untouched, parse("[1]").unwrap());
}

#[test]
fn numbers_that_come_as_text_are_numbers() {
    let schema = parse(
        r#"{"type":"object","properties":{"n":{"type":"integer"},"x":{"type":"number"},"s":{"type":"string"}}}"#,
    )
    .unwrap();
    let args = parse(r#"{"n":"5","x":"abc","s":"7","other":"8"}"#).unwrap();
    assert_eq!(
        numeric_texts(&args, &schema),
        vec!["5".to_string(), "abc".to_string()]
    );
    let numbers = vec![("5".to_string(), parse("5.0").unwrap())];
    let coerced = coerce_arg_types(args, &schema, &numbers);
    assert_eq!(
        coerced,
        parse(r#"{"n":5.0,"x":"abc","s":"7","other":"8"}"#).unwrap()
    );
}

#[test]
fn arguments_other_than_objects_are_left_out() {
    let request = make_request("t", parse("[1]").unwrap());
    assert_eq!(request.name, "t");
    assert!(request.arguments.is_none());
    let request = make_request("t", parse(r#"{"a":1}"#).unwrap());
    assert_eq!(request.arguments, Some(vec![("a".to_string(), parse("1").unwrap())]));
}

#[test]
fn calls_go_to_configured_servers_first() {
    let mut orchestrator = new_test();
    assert_eq!(
        orchestrator.route("u"),
        Err(McpError::ServerNotFound("u".to_string()))
    );
    orchestrator.finish_dynamic_connection(
        &PoolKey::new("u".to_string(), 0, None),
        4,
        &Some(vec![create_test_tool("d")]),
    );
    assert_eq!(orchestrator.route("u"), Ok(4));
    assert!(orchestrator
        .connect_static_server(&sse_server("u", "http://x"), &connection(9, vec![]))
        .is_ok());
    assert_eq!(orchestrator.route("u"), Ok(9));
}

#[test]
fn a_connection_that_leaves_takes_its_tools_along() {
    let mut config = McpConfig::default();
    config.pool.max_connections = 1;
    let mut orchestrator = created(config);
    let first = sse_server("n", "http://a");
    let key = match orchestrator.connect_dynamic_server(&first) {
        DynamicStep::Connect(key) => key,
        DynamicStep::Connected(_) => panic!("nothing is connected yet"),
    };
    let url = orchestrator.finish_dynamic_connection(&key, 1, &Some(vec![create_test_tool("t")]));
    assert_eq!(url, "http://a");
    assert!(orchestrator.has_tool("http://a", "t"));
    match orchestrator.connect_dynamic_server(&first) {
        DynamicStep::Connected(url) => assert_eq!(url, "http://a"),
        DynamicStep::Connect(_) => panic!("it is connected"),
    }
    match orchestrator.connect_dynamic_server_with_tenant(&first, Some("x".to_string())) {
        DynamicStep::Connect(key) => assert_eq!(key.tenant_id, Some("x".to_string())),
        DynamicStep::Connected(_) => panic!("another tenant"),
    }
    let other = PoolKey::new("http://b".to_string(), 0, None);
    orchestrator.finish_dynamic_connection(&other, 2, &Some(vec![create_test_tool("t")]));
    assert!(!orchestrator.has_tool("http://a", "t"));
    assert!(orchestrator.has_tool("http://b", "t"));
    assert_eq!(orchestrator.list_servers(), vec!["http://b".to_string()]);
    let entry = orchestrator.get_tool("http://b", "t").unwrap();
    assert_eq!(entry.category, ToolCategory::Dynamic);
}

#[test]
fn servers_are_listed_in_order_and_once() {
    let mut orchestrator = new_test();
    for name in ["b", "a"] {
        assert!(orchestrator
            .connect_static_server(&sse_server(name, "http://x"), &connection(1, vec![]))
            .is_ok());
    }
    orchestrator.finish_dynamic_connection(&PoolKey::new("a".to_string(), 0, None), 2, &None);
    orchestrator.finish_dynamic_connection(&PoolKey::new("a".to_string(), 1, None), 3, &None);
    orchestrator.finish_dynamic_connection(&PoolKey::new("Z".to_string(), 0, None), 4, &None);
    assert_eq!(
        orchestrator.list_servers(),
        vec!["Z".to_string(), "a".to_string(), "b".to_string()]
    );
}

#[test]
fn a_refresh_replaces_the_tools_of_one_server() {
    let mut orchestrator = new_test();
    assert!(orchestrator
        .connect_static_server(&sse_server("s", "http://x"), &connection(1, vec!["old"]))
        .is_ok());
    add(&mut orchestrator, "other", "kept");
    let targets = orchestrator.refresh_targets();
    orchestrator.refresh_server(&targets, "s", &Some(vec![create_test_tool("new")]));
    assert!(!orchestrator.has_tool("s", "old"));
    assert!(orchestrator.has_tool("s", "new"));
    assert!(orchestrator.has_tool("other", "kept"));
    orchestrator.refresh_server(&targets, "other", &Some(vec![]));
    assert!(orchestrator.has_tool("other", "kept"));
}

#[test]
fn servers_that_are_connected_later_are_not_refreshed() {
    let mut orchestrator = new_test();
    let first = sse_server("first", "http://x");
    assert!(orchestrator.connect_static_server(&first, &connection(1, vec!["a"])).is_ok());
    let targets = orchestrator.refresh_targets();
    let later = sse_server("later", "http://y");
    assert!(orchestrator.connect_static_server(&later, &connection(2, vec!["b"])).is_ok());
    assert_eq!(targets.get("first"), Some(1));
    assert_eq!(targets.get("later"), None);
    orchestrator.refresh_server(&targets, "later", &Some(vec![create_test_tool("new")]));
    assert!(orchestrator.has_tool("later", "b"));
    assert!(!orchestrator.has_tool("later", "new"));
    orchestrator.refresh_server(&targets, "first", &None);
    assert!(!orchestrator.has_tool("first", "a"));
}

#[test]
fn a_server_is_connected_anew_three_times_at_most() {
    assert_eq!(reconnect_delay(1), Some(500));
    assert_eq!(reconnect_delay(2), Some(1000));
    assert_eq!(reconnect_delay(3), None);
    assert_eq!(reconnect_delay(0), None);
    assert_eq!(reconnect_delay(u32::MAX), None);
}

#[test]
fn errors_say_what_failed() {
    let x = || "x".to_string();
    assert_eq!(McpError::Config(x()).to_string(), "Configuration error: x");
    assert_eq!(McpError::Transport(x()).to_string(), "Transport error: x");
    assert_eq!(McpError::ConnectionFailed(x()).to_string(), "Connection failed: x");
    assert_eq!(McpError::ToolNotFound(x()).to_string(), "Tool not found: x");
    assert_eq!(McpError::ToolDenied(x()).to_string(), "Tool denied: x");
    assert_eq!(McpError::ServerNotFound(x()).to_string(), "Server not found: x");
    assert_eq!(McpError::ServerDisconnected(x()).to_string(), "Server disconnected: x");
    assert_eq!(McpError::ToolExecution(x()).to_string(), "Tool execution failed: x");
}

#[test]
fn a_lost_connection_is_made_again() {
    let mut orchestrator = created(McpConfig {
        servers: vec![sse_server("s", "http://x")],
        ..Default::default()
    });
    assert!(orchestrator
        .connect_static_server(&sse_server("s", "http://x"), &connection(1, vec!["t"]))
        .is_ok());
    let lost = McpError::ServerDisconnected("s".to_string());
    match orchestrator.after_call_failure(Some(1), lost.clone()) {
        ReconnectStep::Reconnect(config) => assert_eq!(config.name, "s"),
        _ => panic!("not connected anew"),
    }
    match orchestrator.after_call_failure(Some(7), lost.clone()) {
        ReconnectStep::Retry => {}
        _ => panic!("another client is there already"),
    }
    match orchestrator.after_call_failure(None, lost) {
        ReconnectStep::Retry => {}
        _ => panic!("a client is there now"),
    }
    let unknown = McpError::ServerDisconnected("u".to_string());
    match orchestrator.after_call_failure(None, unknown) {
        ReconnectStep::Fail(e) => assert_eq!(e, McpError::ServerNotFound("u".to_string())),
        _ => panic!("there is no such server"),
    }
    let failed = McpError::ToolExecution("x".to_string());
    match orchestrator.after_call_failure(Some(1), failed.clone()) {
        ReconnectStep::Fail(e) => assert_eq!(e, failed),
        _ => panic!("the call failed"),
    }
    orchestrator.disconnect_static_server("s");
    assert!(!orchestrator.is_connected("s"));
}

#[test]
fn call_failures_tell_lost_connections_apart() {
    assert_eq!(
        call_error("s", CallFailure::TransportClosed),
        McpError::ServerDisconnected("s".to_string())
    );
    assert_eq!(
        call_error("s", CallFailure::TransportSend),
        McpError::ServerDisconnected("s".to_string())
    );
    assert_eq!(
        call_error("s", CallFailure::Other("boom".to_string())),
        McpError::ToolExecution("MCP call failed: boom".to_string())
    );
}

#[test]
fn shutting_down_empties_everything() {
    let mut orchestrator = new_test();
    assert!(orchestrator
        .connect_static_server(&sse_server("s", "http://x"), &connection(1, vec!["t"]))
        .is_ok());
    orchestrator.finish_dynamic_connection(&PoolKey::new("u".to_string(), 0, None), 2, &None);
    orchestrator.shutdown();
    assert!(orchestrator.list_servers().is_empty());
    assert_eq!(orchestrator.tool_inventory.counts(), (0, 0, 0));
    assert_eq!(shutdown_step(0, 0), ShutdownStep::Proceed);
    assert_eq!(shutdown_step(1, 29_999), ShutdownStep::Wait(100));
    assert_eq!(shutdown_step(1, 30_000), ShutdownStep::GiveUp);
    assert_eq!(shutdown_step(0, 30_000), ShutdownStep::Proceed);
}

#[test]
fn built_in_and_internal_servers_are_known_before_and_after_connection() {
    let mut orchestrator = created(McpConfig {
        servers: vec![
            McpServerConfig {
                builtin_type: Some(BuiltinToolType::FileSearch),
                builtin_tool_name: Some("find".to_string()),
                ..sse_server("files", "http://a")
            },
            McpServerConfig {
                internal: true,
                ..sse_server("hidden", "http://b")
            },
        ],
        ..Default::default()
    });
    let late = McpServerConfig {
        internal: true,
        builtin_type: Some(BuiltinToolType::CodeInterpreter),
        builtin_tool_name: Some("run".to_string()),
        ..sse_server("late", "http://c")
    };
    assert!(orchestrator
        .connect_static_server(&late, &connection(1, vec!["run"]))
        .is_ok());
    let builtin = orchestrator.builtin_server_names();
    assert!(builtin.contains(&"files".to_string()) && builtin.contains(&"late".to_string()));
    assert!(!builtin.contains(&"hidden".to_string()));
    let internal = orchestrator.internal_server_names();
    assert!(internal.contains(&"hidden".to_string()) && internal.contains(&"late".to_string()));
    assert!(!internal.contains(&"files".to_string()));
    assert_eq!(
        orchestrator.find_builtin_server(BuiltinToolType::CodeInterpreter),
        Some((
            "late".to_string(),
            "run".to_string(),
            ResponseFormat::CodeInterpreterCall
        ))
    );
    assert_eq!(
        orchestrator.get_tool("late", "run").unwrap().response_format,
        ResponseFormat::CodeInterpreterCall
    );
}

#[test]
fn a_tool_runs_only_when_it_is_approved() {
    let entry = ToolEntry::from_server_tool("s", create_test_tool("t"));
    let decide = |allowed| ApprovalOutcome::Decided { allowed };
    assert_eq!(
        after_outcome(&entry, ApprovalMode::PolicyOnly, decide(true)),
        ApprovalStep::Execute
    );
    assert_eq!(
        after_outcome(&entry, ApprovalMode::PolicyOnly, decide(false)),
        ApprovalStep::Refuse(McpError::ToolDenied("t".to_string()))
    );
    assert_eq!(
        after_outcome(&entry, ApprovalMode::Interactive, ApprovalOutcome::Pending),
        ApprovalStep::ReportPending
    );
    assert_eq!(
        after_outcome(&entry, ApprovalMode::PolicyOnly, ApprovalOutcome::Pending),
        ApprovalStep::AwaitDecision
    );
    assert_eq!(
        after_decision(Some(ApprovalDecision::Approved)),
        ApprovalStep::Execute
    );
    assert_eq!(
        after_decision(Some(ApprovalDecision::Denied {
            reason: "no".to_string()
        })),
        ApprovalStep::Refuse(McpError::ToolDenied("no".to_string()))
    );
    assert_eq!(
        after_decision(None),
        ApprovalStep::Refuse(McpError::ToolDenied("Channel closed".to_string()))
    );
    let request = McpApprovalRequest::for_entry("r", &entry);
    assert_eq!(request.request_id, "r");
    assert_eq!(request.server_key, "s");
    assert_eq!(request.elicitation_id, "tool-t");
    assert_eq!(request.tool_name, "t");
    assert_eq!(request.message, "Allow execution of 't'?");
}

#[test]
fn results_of_calls_are_recorded() {
    let mut orchestrator = new_test();
    add(&mut orchestrator, "s", "t");
    let input = || ToolExecutionInput {
        call_id: "c".to_string(),
        tool_name: "t".to_string(),
        arguments: parse(r#"{"a":1}"#).unwrap(),
    };
    let failed = orchestrator.execute_tool_resolved(
        input(),
        "s",
        "label",
        CallOutcome::Failed("boom".to_string()),
        3,
    );
    assert!(failed.is_error);
    assert_eq!(failed.error_message.as_deref(), Some("Tool call failed: boom"));
    assert_eq!(
        failed.output,
        parse(r#"{"error":"Tool call failed: boom"}"#).unwrap()
    );
    assert_eq!(failed.duration_ms, 3);
    let pending =
        orchestrator.execute_tool_resolved(input(), "s", "label", CallOutcome::PendingApproval, 0);
    assert_eq!(
        pending.error_message.as_deref(),
        Some("Tool requires approval (not supported in this context)")
    );
    let missing =
        orchestrator.execute_tool_resolved(input(), "u", "label", CallOutcome::PendingApproval, 0);
    assert_eq!(
        missing.error_message.as_deref(),
        Some("Tool 't' not found on server 'u'")
    );
    let answered = orchestrator.execute_tool_resolved(
        input(),
        "s",
        "label",
        CallOutcome::Answered {
            content: parse("[]").unwrap(),
            is_error: Some(true),
        },
        0,
    );
    assert!(answered.is_error);
    assert_eq!(answered.error_message, None);
    assert_eq!(answered.output, parse("[]").unwrap());
    assert_eq!(answered.arguments_str, r#"{"a":1}"#);
    assert_eq!(answered.server_key, "s");
    assert_eq!(answered.server_label, "label");
}

#[test]
fn call_results_are_written_as_text() {
    let item = parse(r#"{"type":"mcp_call","id":"x"}"#).unwrap();
    let result = ToolCallResult::Success(item.clone());
    assert_eq!(
        result.into_serialized(),
        (r#"{"type":"mcp_call","id":"x"}"#.to_string(), false, None)
    );
    assert_eq!(ToolCallResult::Success(item.clone()).into_item(), Some(item));
    let entry = ToolEntry::from_server_tool("s", create_test_tool("t"));
    let pending = || ToolCallResult::PendingApproval(McpApprovalRequest::for_entry("r", &entry));
    assert_eq!(pending().into_item(), None);
    let message = "Tool requires approval (not supported in this context)";
    assert_eq!(
        pending().into_serialized(),
        (
            format!(r#"{{"error":"{message}"}}"#),
            true,
            Some(message.to_string())
        )
    );
}

#[test]
fn tools_of_a_request_come_before_shared_ones() {
    let mut orchestrator = new_test();
    add(&mut orchestrator, "s", "t");
    let mut ctx = orchestrator.create_request_context(
        "r",
        TenantContext::default(),
        ApprovalMode::PolicyOnly,
    );
    assert_eq!(ctx.tenant_ctx.tenant_id, "default");
    match ctx.resolve_call("s", "t") {
        Ok(CallTarget::Shared(entry)) => assert_eq!(entry.tool_name(), "t"),
        _ => panic!("the tool is shared"),
    }
    assert!(ctx
        .add_dynamic_server(&sse_server("s", "http://x"), &connection(5, vec!["t", "u"]))
        .is_ok());
    match ctx.resolve_call("s", "t") {
        Ok(CallTarget::Dynamic { entry, client }) => {
            assert_eq!(client, 5);
            assert_eq!(entry.category, ToolCategory::Dynamic);
        }
        _ => panic!("the request has its own"),
    }
    assert_eq!(ctx.list_tools().len(), 3);
    assert_eq!(ctx.dynamic_server_keys(), vec!["s".to_string()]);
    match ctx.resolve_call("s", "v") {
        Err(e) => assert_eq!(e, McpError::ToolNotFound("s:v".to_string())),
        Ok(_) => panic!("there is no such tool"),
    }
    let refused = Err(McpError::Transport("x".to_string()));
    assert_eq!(
        ctx.add_dynamic_server(&sse_server("w", "http://y"), &refused),
        Err(McpError::Transport("x".to_string()))
    );
    let entry = ToolEntry::from_server_tool("s", create_test_tool("t"));
    let request = McpRequestContext::dynamic_request(&entry, parse(r#"{"a":1}"#).unwrap());
    assert_eq!(request.name, "t");
}

#[test]
fn server_keys_name_the_address() {
    assert_eq!(
        McpOrchestrator::server_key(&sse_server("n", "http://a")),
        "http://a"
    );
    let local = McpServerConfig {
        transport: McpTransport::Stdio {
            command: "run".to_string(),
            args: vec!["a".to_string(), "b".to_string()],
            envs: vec![],
        },
        ..sse_server("n", "")
    };
    assert_eq!(McpOrchestrator::server_key(&local), "run:a b");
}

#[test]
fn a_call_is_made_at_most_twice() {
    let mut orchestrator = created(McpConfig {
        servers: vec![sse_server("s", "http://x")],
        ..Default::default()
    });
    assert!(orchestrator
        .connect_static_server(&sse_server("s", "http://x"), &connection(1, vec!["t"]))
        .is_ok());
    let entry = orchestrator.call_entry("s", "t").unwrap();
    let mut call = ToolCall::new(entry, ApprovalMode::PolicyOnly);
    let lost = || CallEvent::Returned(Err(McpError::ServerDisconnected("s".to_string())));
    assert!(matches!(
        call.step(CallEvent::Approval(Ok(ApprovalOutcome::Pending)), &orchestrator),
        CallAction::AwaitDecision
    ));
    assert!(matches!(
        call.step(CallEvent::Decision(Some(ApprovalDecision::Approved)), &orchestrator),
        CallAction::Call
    ));
    assert_eq!(
        call.phase,
        CallPhase::Calling {
            client: Some(1),
            again: false
        }
    );
    match call.step(lost(), &orchestrator) {
        CallAction::Reconnect(config) => assert_eq!(config.name, "s"),
        _ => panic!("the connection is lost"),
    }
    assert!(matches!(
        call.step(CallEvent::Reconnected(Ok(())), &orchestrator),
        CallAction::Call
    ));
    match call.step(lost(), &orchestrator) {
        CallAction::Fail(e) => assert_eq!(e, McpError::ServerDisconnected("s".to_string())),
        _ => panic!("it was called twice"),
    }
    assert_eq!(call.phase, CallPhase::Over);
}

#[test]
fn a_call_ends_with_an_answer_a_question_or_an_error() {
    let mut orchestrator = new_test();
    add(&mut orchestrator, "s", "t");
    let start = |mode| ToolCall::new(orchestrator.call_entry("s", "t").unwrap(), mode);
    let allowed = || CallEvent::Approval(Ok(ApprovalOutcome::Decided { allowed: true }));

    let mut call = start(ApprovalMode::PolicyOnly);
    assert!(matches!(call.step(allowed(), &orchestrator), CallAction::Call));
    assert!(matches!(
        call.step(CallEvent::Returned(Ok(())), &orchestrator),
        CallAction::Answer
    ));

    let mut call = start(ApprovalMode::Interactive);
    assert!(matches!(
        call.step(CallEvent::Approval(Ok(ApprovalOutcome::Pending)), &orchestrator),
        CallAction::ReportPending
    ));

    let mut call = start(ApprovalMode::PolicyOnly);
    let broken = CallEvent::Approval(Err(McpError::Config("x".to_string())));
    match call.step(broken, &orchestrator) {
        CallAction::Fail(e) => assert_eq!(e, McpError::Config("x".to_string())),
        _ => panic!("the approval failed"),
    }

    let mut call = start(ApprovalMode::PolicyOnly);
    assert!(matches!(call.step(allowed(), &orchestrator), CallAction::Call));
    let failed = CallEvent::Returned(Err(McpError::ServerNotFound("s".to_string())));
    match call.step(failed, &orchestrator) {
        CallAction::Fail(e) => assert_eq!(e, McpError::ServerNotFound("s".to_string())),
        _ => panic!("there is no such server"),
    }
}

#[test]
fn internal_servers_are_called_like_others() {
    let shown = sse_server("s", "http://x/sse");
    let internal = McpServerConfig { internal: true, ..shown.clone() };
    let mut a = new_test();
    let mut b = new_test();
    assert_eq!(a.connect_static_server(&shown, &connection(4, vec!["t"])), Ok(()));
    assert_eq!(b.connect_static_server(&internal, &connection(4, vec!["t"])), Ok(()));
    assert_eq!(a.route("s"), Ok(4));
    assert_eq!(b.route("s"), Ok(4));
    assert!(a.has_tool("s", "t") && b.has_tool("s", "t"));
    assert!(a.internal_server_names().is_empty());
    assert_eq!(b.internal_server_names(), vec!["s".to_string()]);
}

#[test]
fn a_start_keeps_what_could_be_connected() {
    let config = || McpConfig {
        servers: vec![
            sse_server("a", "http://a/sse"),
            sse_server("b", "http://b/sse"),
            McpServerConfig { required: true, ..sse_server("c", "http://c/sse") },
        ],
        ..Default::default()
    };
    let lost = || Err(McpError::ConnectionFailed("gone".to_string()));
    match McpOrchestrator::start(
        config(),
        &vec![connection(1, vec!["t"]), lost(), connection(3, vec![])],
    ) {
        Ok(o) => {
            assert_eq!(o.list_servers(), vec!["a".to_string(), "c".to_string()]);
            assert!(o.connection_pool.is_empty());
            assert_eq!(o.connection_pool.stats().capacity, 100);
            assert!(o.has_tool("a", "t"));
        }
        Err(e) => panic!("{e:?}"),
    }
    let failed = McpOrchestrator::start(
        config(),
        &vec![connection(1, vec![]), connection(2, vec![]), lost()],
    );
    assert_eq!(
        failed.err(),
        Some(McpError::ConnectionFailed("gone".to_string()))
    );
}

#[test]
fn prompts_and_resources_are_kept_by_name() {
    let offer = |key: &str, content: &str| Offer {
        key: key.to_string(),
        content: parse(content).unwrap(),
    };
    let mut orchestrator = new_test();
    let mut first = connection(1, vec![]).unwrap();
    first.prompts = Some(vec![offer("p", "1"), offer("q", "2")]);
    first.resources = Some(vec![offer("file:///x", "3")]);
    assert_eq!(
        orchestrator.connect_static_server(&sse_server("a", "http://a"), &Ok(first)),
        Ok(())
    );
    let mut second = connection(2, vec![]).unwrap();
    second.prompts = Some(vec![offer("p", "4")]);
    assert_eq!(
        orchestrator.connect_static_server(&sse_server("b", "http://b"), &Ok(second)),
        Ok(())
    );
    assert_eq!(orchestrator.tool_inventory.counts(), (0, 2, 1));
    let prompt = &orchestrator.tool_inventory.prompts[0];
    assert_eq!(
        (prompt.key.as_str(), prompt.server_key.as_str()),
        ("p", "b")
    );
    assert_eq!(prompt.content, parse("4").unwrap());
}

#[test]
fn approval_requests_carry_the_hints_of_the_tool() {
    let hints = ToolAnnotations {
        title: Some("T".to_string()),
        read_only_hint: Some(true),
        destructive_hint: None,
        idempotent_hint: None,
        open_world_hint: Some(false),
    };
    let tool = Tool { annotations: Some(hints.clone()), ..create_test_tool("t") };
    let entry = ToolEntry::from_server_tool("s", tool);
    assert_eq!(McpApprovalRequest::for_entry("r", &entry).hints, Some(hints));
    let bare = ToolEntry::from_server_tool("s", create_test_tool("t"));
    assert_eq!(McpApprovalRequest::for_entry("r", &bare).hints, None);
}

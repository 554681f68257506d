use mcp_gateway::config::{
    BuiltinToolType, McpConfig, McpServerConfig, McpTransport, ResponseFormatConfig, ToolConfig,
};
use mcp_gateway::inventory::{ResponseFormat, Tool, ToolEntry};
use mcp_gateway::json::Json;
use mcp_gateway::mcp_utils::{
    collect_builtin_routing, connect_mcp_servers, ensure_mcp_servers, ensure_request_mcp_client,
    extract_builtin_types, plan_input, request_inputs, InputPlan, McpServerInput,
};
use mcp_gateway::orchestrator::McpOrchestrator;
use mcp_gateway::patch::{
    is_missing_or_empty, patch_response_with_request_metadata, response_tool_to_value,
    restore_original_tools, rewrite_event, rewrite_streaming_block,
};
use mcp_gateway::request::{McpTool, ResponseInput, ResponseTool, ResponsesRequest};
use mcp_gateway::session::{McpServerBinding, McpToolSession};
use mcp_gateway::wire::parse;

fn created(config: McpConfig) -> McpOrchestrator {
    match McpOrchestrator::new(config) {
        Ok(orchestrator) => orchestrator,
        Err(e) => panic!("{e:?}"),
    }
}

fn streamable_server(name: &str, url: &str) -> McpServerConfig {
    McpServerConfig {
        name: name.to_string(),
        transport: McpTransport::Streamable {
            url: url.to_string(),
            token: None,
            headers: Vec::new(),
        },
        proxy: None,
        required: false,
        tools: None,
        builtin_type: None,
        builtin_tool_name: None,
        internal: false,
    }
}

fn builtin_server(
    name: &str,
    url: &str,
    builtin_type: BuiltinToolType,
    tool: &str,
    response_format: ResponseFormatConfig,
) -> McpServerConfig {
    McpServerConfig {
        tools: Some(vec![(
            tool.to_string(),
            ToolConfig {
                response_format,
                ..Default::default()
            },
        )]),
        builtin_type: Some(builtin_type),
        builtin_tool_name: Some(tool.to_string()),
        ..streamable_server(name, url)
    }
}

fn create_test_orchestrator_with_builtin() -> McpOrchestrator {
    created(McpConfig {
        servers: vec![builtin_server(
            "search-server",
            "http://localhost:9999/mcp",
            BuiltinToolType::WebSearchPreview,
            "web_search",
            ResponseFormatConfig::WebSearchCall,
        )],
        ..Default::default()
    })
}

fn create_test_orchestrator_no_builtin() -> McpOrchestrator {
    created(McpConfig::default())
}

fn web_search() -> ResponseTool {
    ResponseTool::WebSearchPreview(Json::Object(Vec::new()))
}

fn code_interpreter() -> ResponseTool {
    ResponseTool::CodeInterpreter(Json::Object(Vec::new()))
}

fn mcp_tool(label: &str, url: Option<&str>) -> McpTool {
    McpTool {
        server_url: url.map(|u| u.to_string()),
        authorization: None,
        headers: None,
        server_label: label.to_string(),
        server_description: None,
        require_approval: None,
        allowed_tools: None,
    }
}

fn request() -> ResponsesRequest {
    ResponsesRequest {
        model: "gpt-5.4".to_string(),
        input: ResponseInput::Text("hello".to_string()),
        instructions: None,
        metadata: None,
        store: None,
        user: None,
        conversation: None,
        max_tool_calls: None,
        tools: None,
    }
}

#[test]
fn test_collect_builtin_routing_with_configured_server() {
    let orchestrator = create_test_orchestrator_with_builtin();

    let tools = vec![web_search()];

    let routing = collect_builtin_routing(&orchestrator, Some(&tools));

    assert_eq!(routing.len(), 1);
    assert_eq!(routing[0].builtin_type, BuiltinToolType::WebSearchPreview);
    assert_eq!(routing[0].server_name, "search-server");
    assert_eq!(routing[0].tool_name, "web_search");
    assert_eq!(routing[0].response_format, ResponseFormat::WebSearchCall);
}

#[test]
fn test_collect_builtin_routing_no_configured_server() {
    let orchestrator = create_test_orchestrator_no_builtin();

    let tools = vec![web_search()];

    let routing = collect_builtin_routing(&orchestrator, Some(&tools));

    // No routing because no server configured for this built-in type
    assert!(routing.is_empty());
}

#[test]
fn test_collect_builtin_routing_ignores_mcp_tools() {
    let orchestrator = create_test_orchestrator_with_builtin();

    let tools = vec![ResponseTool::Mcp(mcp_tool(
        "mcp",
        Some("http://example.com/mcp"),
    ))];

    let routing = collect_builtin_routing(&orchestrator, Some(&tools));

    // MCP tools are not built-in types, should be empty
    assert!(routing.is_empty());
}

#[test]
fn test_collect_builtin_routing_ignores_function_tools() {
    let orchestrator = create_test_orchestrator_with_builtin();

    let tools = vec![ResponseTool::Function];

    let routing = collect_builtin_routing(&orchestrator, Some(&tools));

    // Function tools are not built-in types, should be empty
    assert!(routing.is_empty());
}

#[test]
fn test_collect_builtin_routing_none_tools() {
    let orchestrator = create_test_orchestrator_no_builtin();

    let routing = collect_builtin_routing(&orchestrator, None);

    assert!(routing.is_empty());
}

#[test]
fn test_collect_builtin_routing_multiple_builtin_tools() {
    let orchestrator = created(McpConfig {
        servers: vec![
            builtin_server(
                "search-server",
                "http://localhost:9999/search",
                BuiltinToolType::WebSearchPreview,
                "web_search",
                ResponseFormatConfig::WebSearchCall,
            ),
            builtin_server(
                "code-server",
                "http://localhost:9998/code",
                BuiltinToolType::CodeInterpreter,
                "run_code",
                ResponseFormatConfig::CodeInterpreterCall,
            ),
        ],
        ..Default::default()
    });

    let tools = vec![web_search(), code_interpreter()];

    let routing = collect_builtin_routing(&orchestrator, Some(&tools));

    assert_eq!(routing.len(), 2);

    // Find web search routing
    let web_routing = routing
        .iter()
        .find(|r| r.builtin_type == BuiltinToolType::WebSearchPreview)
        .expect("Should have web search routing");
    assert_eq!(web_routing.server_name, "search-server");
    assert_eq!(web_routing.tool_name, "web_search");
    assert_eq!(web_routing.response_format, ResponseFormat::WebSearchCall);

    // Find code interpreter routing
    let code_routing = routing
        .iter()
        .find(|r| r.builtin_type == BuiltinToolType::CodeInterpreter)
        .expect("Should have code interpreter routing");
    assert_eq!(code_routing.server_name, "code-server");
    assert_eq!(code_routing.tool_name, "run_code");
    assert_eq!(
        code_routing.response_format,
        ResponseFormat::CodeInterpreterCall
    );
}

#[test]
fn test_ensure_request_mcp_client_with_builtin_routing() {
    let orchestrator = create_test_orchestrator_with_builtin();

    let tools = vec![web_search()];

    let result = ensure_request_mcp_client(&orchestrator, &tools, &vec![]);

    // Should return Some because built-in routing is configured
    assert!(result.is_some());

    let mcp_servers = result.unwrap();
    assert_eq!(mcp_servers.len(), 1);

    // The server key should be the static server name
    assert_eq!(mcp_servers[0].label, "search-server");
    assert_eq!(mcp_servers[0].server_key, "search-server");
}

#[test]
fn test_ensure_request_mcp_client_no_builtin_routing() {
    let orchestrator = create_test_orchestrator_no_builtin();

    let tools = vec![web_search()];

    let result = ensure_request_mcp_client(&orchestrator, &tools, &vec![]);

    // Should return None because no MCP or built-in routing is available
    assert!(result.is_none());
}

#[test]
fn test_ensure_request_mcp_client_function_tools_only() {
    let orchestrator = create_test_orchestrator_with_builtin();

    let tools = vec![ResponseTool::Function];

    let result = ensure_request_mcp_client(&orchestrator, &tools, &vec![]);

    // Should return None - function tools don't need MCP processing
    assert!(result.is_none());
}

#[test]
fn test_ensure_request_mcp_client_mixed_tools() {
    let orchestrator = create_test_orchestrator_with_builtin();

    let tools = vec![ResponseTool::Function, web_search()];

    let result = ensure_request_mcp_client(&orchestrator, &tools, &vec![]);

    // Should return Some because web_search_preview has built-in routing
    assert!(result.is_some());

    let mcp_servers = result.unwrap();
    assert_eq!(mcp_servers.len(), 1);
    assert_eq!(mcp_servers[0].label, "search-server");
}

fn internal_orchestrator() -> McpOrchestrator {
    let mut orchestrator = created(McpConfig {
        servers: vec![McpServerConfig {
            transport: McpTransport::Sse {
                url: "http://localhost:3000/sse".to_string(),
                token: None,
                headers: Vec::new(),
            },
            internal: true,
            ..streamable_server("internal-server", "")
        }],
        ..Default::default()
    });
    orchestrator
        .tool_inventory
        .insert_entry(ToolEntry::from_server_tool(
            "internal-server",
            Tool {
                name: "internal_search".to_string(),
                title: None,
                description: Some("internal".to_string()),
                output_schema: None,
                annotations: None,
                icons: None,
                input_schema: parse(
                    r#"{"type":"object","properties":{"query":{"type":"string"}}}"#,
                )
                .unwrap(),
            },
        ));
    orchestrator
}

fn internal_binding() -> Vec<McpServerBinding> {
    vec![McpServerBinding {
        label: "internal-label".to_string(),
        server_key: "internal-server".to_string(),
        allowed_tools: None,
    }]
}

#[test]
fn restore_original_tools_strips_injected_internal_tool_when_request_had_no_tools() {
    let original_body = request();
    let orchestrator = internal_orchestrator();
    let session = McpToolSession::new(&orchestrator, internal_binding(), "test-request");
    let mut response = parse(
        r#"{
            "tools": [{
                "type": "function",
                "name": "internal_search",
                "description": "internal",
                "parameters": {
                    "type": "object",
                    "properties": {},
                    "required": ["query"]
                }
            }],
            "tool_choice": "auto"
        }"#,
    )
    .unwrap();

    restore_original_tools(&mut response, &original_body, Some(&session));

    assert_eq!(response.get("tools"), Some(&parse("[]").unwrap()));
    assert_eq!(response.get_str("tool_choice"), Some("auto"));
}

#[test]
fn restore_original_tools_strips_internal_mcp_output_items() {
    let original_body = request();
    let orchestrator = internal_orchestrator();
    let session = McpToolSession::new(&orchestrator, internal_binding(), "test-request");
    let mut response = parse(
        r#"{
            "output": [
                {
                    "type": "mcp_list_tools",
                    "server_label": "internal-label",
                    "tools": []
                },
                {
                    "type": "mcp_call",
                    "name": "internal_search",
                    "server_label": "internal-label"
                },
                {
                    "type": "message",
                    "content": [{"type": "output_text", "text": "visible"}]
                }
            ]
        }"#,
    )
    .unwrap();

    restore_original_tools(&mut response, &original_body, Some(&session));

    assert_eq!(
        response.get("output"),
        Some(
            &parse(
                r#"[{
                    "type": "message",
                    "content": [{"type": "output_text", "text": "visible"}]
                }]"#
            )
            .unwrap()
        )
    );
}

fn input(label: &str, url: Option<&str>) -> McpServerInput {
    McpServerInput {
        label: label.to_string(),
        url: url.map(|u| u.to_string()),
        authorization: None,
        headers: Vec::new(),
        allowed_tools: None,
    }
}

#[test]
fn addresses_decide_how_a_server_is_reached() {
    match plan_input(&input("a", Some("http://host/sse"))) {
        InputPlan::Connect(config) => match config.transport {
            McpTransport::Sse { url, .. } => assert_eq!(url, "http://host/sse"),
            _ => panic!("an event stream"),
        },
        _ => panic!("a server to connect"),
    }
    match plan_input(&input("a", Some("https://host/mcp"))) {
        InputPlan::Connect(config) => match config.transport {
            McpTransport::Streamable { url, .. } => assert_eq!(url, "https://host/mcp"),
            _ => panic!("streamable HTTP"),
        },
        _ => panic!("a server to connect"),
    }
    assert!(matches!(
        plan_input(&input("a", Some("ftp://host"))),
        InputPlan::Ignore
    ));
    assert!(matches!(plan_input(&input("a", None)), InputPlan::UseStatic));
}

#[test]
fn a_server_is_bound_once() {
    let inputs = vec![
        input("a", Some("http://x/mcp")),
        input("b", Some("http://x/mcp")),
        input("c", Some("http://y/mcp")),
        input("d", None),
    ];
    let servers = connect_mcp_servers(&inputs, &vec![true, true, false, false]);
    let keys: Vec<&str> = servers.iter().map(|b| b.server_key.as_str()).collect();
    assert_eq!(keys, vec!["http://x/mcp", "d"]);
    assert_eq!(servers[0].label, "a");
    assert_eq!(servers[1].label, "d");
}

#[test]
fn built_in_servers_join_the_others() {
    let orchestrator = create_test_orchestrator_with_builtin();
    let inputs = vec![input("a", Some("http://x/mcp"))];
    let types = vec![BuiltinToolType::WebSearchPreview];
    let servers = ensure_mcp_servers(&orchestrator, &inputs, &vec![true], &types).unwrap();
    let labels: Vec<&str> = servers.iter().map(|b| b.label.as_str()).collect();
    assert_eq!(labels, vec!["a", "search-server"]);
    assert!(ensure_mcp_servers(&orchestrator, &inputs, &vec![false], &vec![]).is_none());
}

#[test]
fn requests_name_their_servers() {
    let tools = vec![
        ResponseTool::Mcp(McpTool {
            headers: Some(vec![("X".to_string(), "1".to_string())]),
            authorization: Some("t".to_string()),
            allowed_tools: Some(vec!["only".to_string()]),
            ..mcp_tool("lab", Some("http://x"))
        }),
        ResponseTool::Function,
        code_interpreter(),
    ];
    let inputs = request_inputs(&tools);
    assert_eq!(
        inputs,
        vec![McpServerInput {
            label: "lab".to_string(),
            url: Some("http://x".to_string()),
            authorization: Some("t".to_string()),
            headers: vec![("X".to_string(), "1".to_string())],
            allowed_tools: Some(vec!["only".to_string()]),
        }]
    );
    assert_eq!(
        extract_builtin_types(&tools),
        vec![BuiltinToolType::CodeInterpreter]
    );
}

#[test]
fn responses_are_completed_from_the_request() {
    let body = ResponsesRequest {
        instructions: Some("be brief".to_string()),
        metadata: Some(vec![("k".to_string(), parse("1").unwrap())]),
        store: Some(false),
        user: Some("u1".to_string()),
        conversation: Some("conv_1".to_string()),
        ..request()
    };
    let mut response = parse(r#"{"id":"r","instructions":null,"model":"","safety_identifier":null}"#).unwrap();
    patch_response_with_request_metadata(&mut response, &body, Some("prev"));
    assert_eq!(response.get_str("previous_response_id"), Some("prev"));
    assert_eq!(response.get_str("instructions"), Some("be brief"));
    assert_eq!(response.get("metadata"), Some(&parse(r#"{"k":1}"#).unwrap()));
    assert_eq!(response.get("store"), Some(&Json::Bool(false)));
    assert_eq!(response.get_str("model"), Some("gpt-5.4"));
    assert_eq!(response.get_str("safety_identifier"), Some("u1"));
    assert_eq!(
        response.get("conversation"),
        Some(&parse(r#"{"id":"conv_1"}"#).unwrap())
    );
    let mut kept = parse(r#"{"instructions":"mine","model":"m","store":true}"#).unwrap();
    patch_response_with_request_metadata(&mut kept, &body, None);
    assert_eq!(kept.get_str("instructions"), Some("mine"));
    assert_eq!(kept.get_str("model"), Some("m"));
    assert_eq!(kept.get("store"), Some(&Json::Bool(false)));
    assert_eq!(kept.get_str("safety_identifier"), Some("u1"));
    let mut named = parse(r#"{"safety_identifier":"s"}"#).unwrap();
    patch_response_with_request_metadata(&mut named, &body, None);
    assert_eq!(named.get_str("safety_identifier"), Some("s"));
    let mut other = parse("[1]").unwrap();
    patch_response_with_request_metadata(&mut other, &body, Some("prev"));
    assert_eq!(other, parse("[1]").unwrap());
}

#[test]
fn missing_null_and_empty_are_alike() {
    assert!(is_missing_or_empty(None));
    assert!(is_missing_or_empty(Some(&Json::Null)));
    assert!(is_missing_or_empty(Some(&Json::text(""))));
    assert!(!is_missing_or_empty(Some(&Json::text("x"))));
    assert!(!is_missing_or_empty(Some(&Json::number(0))));
}

#[test]
fn blocks_are_rewritten_only_where_they_change() {
    let body = request();
    let block = "event: response.created\ndata: {\"type\":\"response.created\",\"response\":{\"id\":\"r\"}}";
    let rewritten = rewrite_streaming_block(block, &body, Some("p")).unwrap();
    assert_eq!(
        rewritten,
        "event: response.created\ndata: {\"type\":\"response.created\",\"response\":{\"id\":\"r\",\"store\":true,\"previous_response_id\":\"p\"}}"
    );
    assert!(rewrite_streaming_block("event: x\ndata: {\"type\":\"x\"}", &body, None).is_none());
    assert!(rewrite_streaming_block("event: x", &body, None).is_none());
    assert!(rewrite_streaming_block("data: no json", &body, None).is_none());
    let unchanged = parse(r#"{"type":"response.completed","response":{"store":true}}"#).unwrap();
    assert!(rewrite_event(unchanged, &body, None).is_none());
}

#[test]
fn tools_are_shown_as_they_were_asked_for() {
    let tool = ResponseTool::Mcp(McpTool {
        server_description: Some("d".to_string()),
        require_approval: Some(parse("\"never\"").unwrap()),
        allowed_tools: Some(vec!["a".to_string()]),
        ..mcp_tool("lab", Some("http://x"))
    });
    assert_eq!(
        response_tool_to_value(&tool).unwrap(),
        parse(
            r#"{"type":"mcp","server_label":"lab","server_url":"http://x","server_description":"d","require_approval":"never","allowed_tools":["a"]}"#
        )
        .unwrap()
    );
    assert!(response_tool_to_value(&ResponseTool::Function).is_none());
    let body = ResponsesRequest {
        tools: Some(vec![tool]),
        ..request()
    };
    let mut response = parse(r#"{"tools":[{"type":"function","name":"f"}]}"#).unwrap();
    restore_original_tools(&mut response, &body, None);
    assert_eq!(
        response.get_array("tools").unwrap()[0].get_str("type"),
        Some("mcp")
    );
    assert_eq!(response.get_str("tool_choice"), Some("auto"));
}

#[test]
fn a_built_in_server_is_bound_once() {
    let orchestrator = create_test_orchestrator_with_builtin();
    let inputs = vec![input("search-server", None)];
    let types = vec![
        BuiltinToolType::WebSearchPreview,
        BuiltinToolType::WebSearchPreview,
    ];
    let servers = ensure_mcp_servers(&orchestrator, &inputs, &vec![false], &types).unwrap();
    assert_eq!(servers.len(), 1);
    assert_eq!(servers[0].server_key, "search-server");
}

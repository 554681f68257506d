use mcp_gateway::config::{McpConfig, McpServerConfig, McpTransport};
use mcp_gateway::inventory::{ResponseFormat, Tool, ToolEntry};
use mcp_gateway::json::Json;
use mcp_gateway::orchestrator::McpOrchestrator;
use mcp_gateway::request::{McpTool, ResponseInput, ResponseTool, ResponsesRequest};
use mcp_gateway::session::{McpServerBinding, McpToolSession};
use mcp_gateway::sse::{parse_sse_block, rebuild_sse_block, ChunkProcessor};
use mcp_gateway::stream_loop::{
    added_content_type, refusal_body, Passthrough, ResponseEnd, StreamAction, StreamFailure,
    StreamHead, StreamLoop,
};
use mcp_gateway::streaming::{
    apply_event_transformations_inplace, build_mcp_tools_value, error_event, extract_output_index,
    final_response_event, finish_response, forward_streaming_event, map_event_name,
    maybe_inject_tool_in_progress, transform_fc_to_mcp_id, SseEventData, StreamingEventContext,
    StreamingToolHandler, SSE_DONE,
};
use mcp_gateway::tool_loop::{servers_to_list, FunctionCallInProgress, ToolLoopState};
use mcp_gateway::wire::{parse, print};

fn json(text: &str) -> Json {
    parse(text).unwrap()
}

fn request() -> ResponsesRequest {
    ResponsesRequest {
        model: "m".to_string(),
        input: ResponseInput::Text("hi".to_string()),
        instructions: None,
        metadata: None,
        store: None,
        user: None,
        conversation: None,
        max_tool_calls: None,
        tools: None,
    }
}

fn mcp_request() -> ResponsesRequest {
    ResponsesRequest {
        tools: Some(vec![
            ResponseTool::Function,
            ResponseTool::Mcp(McpTool {
                server_label: "lab".to_string(),
                server_url: Some("http://x".to_string()),
                authorization: None,
                headers: None,
                server_description: None,
                require_approval: None,
                allowed_tools: None,
            }),
        ]),
        ..request()
    }
}

fn orchestrator() -> McpOrchestrator {
    let mut orchestrator = match McpOrchestrator::new(McpConfig::default()) {
        Ok(o) => o,
        Err(e) => panic!("{e:?}"),
    };
    let tool = |name: &str| Tool {
        name: name.to_string(),
        title: None,
        description: None,
        output_schema: None,
        annotations: None,
        icons: None,
        input_schema: Json::Object(Vec::new()),
    };
    orchestrator
        .tool_inventory
        .insert_entry(ToolEntry::from_server_tool("k", tool("search")));
    orchestrator.tool_inventory.insert_entry(
        ToolEntry::from_server_tool("k", tool("web"))
            .with_response_format(ResponseFormat::WebSearchCall),
    );
    orchestrator
}

fn bindings() -> Vec<McpServerBinding> {
    vec![McpServerBinding {
        label: "lab".to_string(),
        server_key: "k".to_string(),
        allowed_tools: None,
    }]
}

fn plain<'a>(body: &'a ResponsesRequest) -> StreamingEventContext<'a> {
    StreamingEventContext {
        original_request: body,
        previous_response_id: None,
        session: None,
    }
}

fn handler() -> StreamingToolHandler {
    StreamingToolHandler::with_starting_index(0, None)
}

fn pending(output_index: usize, arguments: &str) -> FunctionCallInProgress {
    FunctionCallInProgress {
        call_id: "call_1".to_string(),
        name: "search".to_string(),
        arguments_buffer: arguments.to_string(),
        output_index,
        assigned_output_index: None,
        last_obfuscation: Some("ob".to_string()),
    }
}

#[test]
fn responses_show_the_tools_that_were_asked_for() {
    let body = mcp_request();
    assert_eq!(
        build_mcp_tools_value(&body).unwrap(),
        json(r#"[{"type":"mcp","server_label":"lab","server_url":"http://x"}]"#)
    );
    assert!(build_mcp_tools_value(&request()).is_none());
    let ctx = StreamingEventContext {
        previous_response_id: Some("p"),
        ..plain(&body)
    };
    let mut event = json(
        r#"{"type":"response.created","response":{"tools":[{"type":"function"}],"previous_response_id":""}}"#,
    );
    assert!(apply_event_transformations_inplace(&mut event, &ctx));
    assert_eq!(
        event,
        json(
            r#"{"type":"response.created","response":{"tools":[{"type":"mcp","server_label":"lab","server_url":"http://x"}],"previous_response_id":"p","store":true,"tool_choice":"auto"}}"#
        )
    );
    let mut same = json(r#"{"type":"response.created","response":{"store":true}}"#);
    let before = same.clone();
    assert!(!apply_event_transformations_inplace(&mut same, &plain(&body)));
    assert_eq!(same, before);
}

#[test]
fn calls_of_exposed_tools_become_tool_calls() {
    let body = request();
    let orchestrator = orchestrator();
    let session = McpToolSession::new(&orchestrator, bindings(), "r");
    let ctx = StreamingEventContext {
        session: Some(&session),
        ..plain(&body)
    };
    let mut event = json(
        r#"{"type":"response.output_item.added","item":{"type":"function_call","id":"fc_7","name":"search"}}"#,
    );
    assert!(apply_event_transformations_inplace(&mut event, &ctx));
    assert_eq!(
        event.get("item").unwrap(),
        &json(r#"{"type":"mcp_call","id":"mcp_7","name":"search","server_label":"lab"}"#)
    );
    let mut event = json(
        r#"{"type":"response.output_item.done","item":{"type":"function_tool_call","id":"fc_7","name":"web"}}"#,
    );
    assert!(apply_event_transformations_inplace(&mut event, &ctx));
    assert_eq!(
        event.get("item").unwrap(),
        &json(r#"{"type":"web_search_call","id":"ws_7","name":"web"}"#)
    );
    let mut event = json(
        r#"{"type":"response.output_item.added","item":{"type":"function_call","id":"fc_7","name":"mine"}}"#,
    );
    let before = event.clone();
    assert!(!apply_event_transformations_inplace(&mut event, &ctx));
    assert_eq!(event, before);
    let mut event =
        json(r#"{"type":"response.function_call_arguments.done","item_id":"fc_7"}"#);
    assert!(apply_event_transformations_inplace(&mut event, &ctx));
    assert_eq!(
        event,
        json(r#"{"type":"response.mcp_call_arguments.done","item_id":"mcp_7"}"#)
    );
}

#[test]
fn names_and_identifiers_are_mapped() {
    assert_eq!(transform_fc_to_mcp_id("fc_1"), "mcp_1");
    assert_eq!(transform_fc_to_mcp_id("x_1"), "x_1");
    assert_eq!(
        map_event_name("response.function_call_arguments.delta"),
        "response.mcp_call_arguments.delta"
    );
    assert_eq!(
        map_event_name("response.function_call_arguments.done"),
        "response.mcp_call_arguments.done"
    );
    assert_eq!(map_event_name("other"), "other");
}

#[test]
fn places_in_the_output_are_read_and_mapped() {
    assert_eq!(extract_output_index(&json(r#"{"output_index":3}"#)), Some(3));
    assert_eq!(extract_output_index(&json(r#"{"output_index":-3}"#)), None);
    assert_eq!(extract_output_index(&json(r#"{"output_index":"3"}"#)), None);
    let mut h = handler();
    h.index_map = vec![(0, 5), (1, 7), (0, 9)];
    assert_eq!(h.mapped_output_index(0), Some(5));
    assert_eq!(h.mapped_output_index(1), Some(7));
    assert_eq!(h.mapped_output_index(2), None);
    assert_eq!(h.allocate_synthetic_output_index(), 0);
    assert_eq!(h.next_output_index, 1);
}

#[test]
fn events_are_renumbered_and_remapped() {
    let body = request();
    let ctx = plain(&body);
    let mut h = handler();
    h.index_map = vec![(0, 5)];
    h.original_response_id = Some("resp_1".to_string());
    let mut sequence: u64 = 40;
    let event = SseEventData {
        raw_block: "",
        event_name: Some("response.output_text.delta"),
        data: r#"{"type":"response.output_text.delta","output_index":0,"sequence_number":2,"response":{"id":"x"}}"#,
    };
    let texts = forward_streaming_event(&event, &h, &ctx, &mut sequence);
    assert_eq!(
        texts,
        vec!["event: response.output_text.delta\ndata: {\"type\":\"response.output_text.delta\",\"output_index\":5,\"sequence_number\":40,\"response\":{\"id\":\"resp_1\"}}\n\n".to_string()]
    );
    assert_eq!(sequence, 41);
    let event = SseEventData {
        raw_block: "",
        event_name: None,
        data: r#"{"a":1}"#,
    };
    let texts = forward_streaming_event(&event, &h, &ctx, &mut sequence);
    assert_eq!(texts, vec!["data: {\"a\":1}\n\n".to_string()]);
    assert_eq!(sequence, 41);
}

#[test]
fn some_events_are_held_back() {
    let body = request();
    let ctx = plain(&body);
    let mut sequence: u64 = 0;
    for (event_name, data) in [
        (Some("response.function_call_arguments.delta"), "{}"),
        (Some("response.completed"), "{}"),
        (None, r#"{"type":"response.completed"}"#),
    ] {
        let event = SseEventData {
            raw_block: "raw",
            event_name,
            data,
        };
        assert!(forward_streaming_event(&event, &handler(), &ctx, &mut sequence).is_empty());
    }
    let event = SseEventData {
        raw_block: "raw block",
        event_name: Some("x"),
        data: "no json",
    };
    assert_eq!(
        forward_streaming_event(&event, &handler(), &ctx, &mut sequence),
        vec!["raw block\n\n".to_string()]
    );
    assert_eq!(sequence, 0);
}

#[test]
fn held_arguments_are_sent_before_their_end() {
    let body = request();
    let ctx = plain(&body);
    let mut h = handler();
    h.index_map = vec![(2, 6)];
    h.pending_calls = vec![pending(2, "{\"q\":1}")];
    let mut sequence: u64 = 10;
    let event = SseEventData {
        raw_block: "",
        event_name: Some("response.function_call_arguments.done"),
        data: r#"{"type":"response.function_call_arguments.done","output_index":2,"item_id":"fc_9","sequence_number":1}"#,
    };
    let texts = forward_streaming_event(&event, &h, &ctx, &mut sequence);
    assert_eq!(
        texts,
        vec![
            "event: response.mcp_call_arguments.delta\ndata: {\"type\":\"response.mcp_call_arguments.delta\",\"sequence_number\":10,\"output_index\":6,\"item_id\":\"mcp_9\",\"delta\":\"{\\\"q\\\":1}\",\"obfuscation\":\"ob\"}\n\n".to_string(),
            "event: response.mcp_call_arguments.done\ndata: {\"type\":\"response.mcp_call_arguments.done\",\"output_index\":6,\"item_id\":\"mcp_9\",\"sequence_number\":11,\"arguments\":\"{\\\"q\\\":1}\"}\n\n".to_string(),
        ]
    );
    assert_eq!(sequence, 12);
    h.pending_calls = vec![pending(2, "")];
    let texts = forward_streaming_event(&event, &h, &ctx, &mut sequence);
    assert!(texts[0].contains("\"delta\":\"{}\""));
    h.pending_calls.clear();
    let texts = forward_streaming_event(&event, &h, &ctx, &mut sequence);
    assert_eq!(texts.len(), 1);
}

#[test]
fn added_calls_have_begun() {
    let body = request();
    let ctx = plain(&body);
    let mut sequence: u64 = 3;
    let event = SseEventData {
        raw_block: "",
        event_name: Some("response.output_item.added"),
        data: r#"{"type":"response.output_item.added","sequence_number":0,"output_index":1,"item":{"type":"mcp_call","id":"mcp_1"}}"#,
    };
    let texts = forward_streaming_event(&event, &handler(), &ctx, &mut sequence);
    assert_eq!(texts.len(), 2);
    assert_eq!(
        texts[1],
        "event: response.mcp_call.in_progress\ndata: {\"type\":\"response.mcp_call.in_progress\",\"sequence_number\":4,\"output_index\":1,\"item_id\":\"mcp_1\"}\n\n"
    );
    assert_eq!(sequence, 5);
    for (item, name) in [
        ("web_search_call", "response.web_search_call.in_progress"),
        ("code_interpreter_call", "response.code_interpreter_call.in_progress"),
        ("file_search_call", "response.file_search_call.in_progress"),
    ] {
        let added = json(&format!(
            r#"{{"output_index":1,"item":{{"type":"{item}","id":"i"}}}}"#
        ));
        let text = maybe_inject_tool_in_progress(&added, &mut sequence).unwrap();
        assert!(text.starts_with(&format!("event: {name}\n")));
    }
    for silent in [
        "{}",
        r#"{"output_index":1,"item":{"type":"message","id":"i"}}"#,
        r#"{"output_index":1,"item":{"type":"mcp_call"}}"#,
        r#"{"item":{"type":"mcp_call","id":"i"}}"#,
    ] {
        assert!(maybe_inject_tool_in_progress(&json(silent), &mut sequence).is_none());
    }
    assert_eq!(sequence, 8);
}

#[test]
fn the_final_response_has_the_known_identifier() {
    let body = request();
    let orchestrator = orchestrator();
    let session = McpToolSession::new(&orchestrator, bindings(), "r");
    let ctx = StreamingEventContext {
        session: Some(&session),
        ..plain(&body)
    };
    let state = ToolLoopState::new(ResponseInput::Text("hi".to_string()));
    let mut h = handler();
    h.original_response_id = Some("resp_1".to_string());
    let mut sequence: u64 = 9;
    let list = json(r#"{"type":"mcp_list_tools","server_label":"lab"}"#);
    let text = final_response_event(
        Some(json(r#"{"id":"x","output":[]}"#)),
        &h,
        &state,
        &ctx,
        vec![list.clone()],
        &mut sequence,
    )
    .unwrap();
    assert_eq!(sequence, 10);
    assert_eq!(
        text,
        "event: response.completed\ndata: {\"type\":\"response.completed\",\"sequence_number\":9,\"response\":{\"id\":\"resp_1\",\"output\":[{\"type\":\"mcp_list_tools\",\"server_label\":\"lab\"}],\"store\":true,\"model\":\"m\",\"status\":\"completed\"}}\n\n"
    );
    let none = final_response_event(None, &h, &state, &ctx, vec![list.clone()], &mut sequence);
    assert!(none.is_none());
    assert_eq!(sequence, 10);
    let stored = finish_response(
        json(r#"{"id":"x"}"#),
        &Some("resp_1".to_string()),
        &state,
        &ctx,
        vec![list],
    );
    assert_eq!(stored.get_str("id"), Some("resp_1"));
    assert!(!stored.has("status"));
}

#[test]
fn failures_are_told_to_the_client() {
    assert_eq!(
        error_event("boom"),
        "event: error\ndata: {\"error\":{\"message\":\"boom\"}}\n\n"
    );
    assert_eq!(
        StreamFailure::Request("x".to_string()).texts(),
        vec![error_event("x")]
    );
    let refused = StreamFailure::Upstream {
        status: "503 Service Unavailable".to_string(),
        body: "later".to_string(),
    };
    assert_eq!(
        refused.texts(),
        vec![error_event("Upstream error 503 Service Unavailable: later")]
    );
    assert_eq!(
        StreamFailure::Broken("x".to_string()).texts(),
        vec![error_event("Stream error: x")]
    );
    assert_eq!(
        StreamFailure::LimitReached.texts(),
        vec![
            error_event("Exceeded max_tool_calls limit"),
            SSE_DONE.to_string()
        ]
    );
    assert_eq!(
        StreamFailure::NoResume("payload not an object".to_string()).texts(),
        vec![
            error_event("Failed to build resume payload: payload not an object"),
            "data: [DONE]\n\n".to_string()
        ]
    );
}

#[test]
fn plain_blocks_pass() {
    let body = request();
    let mut stream = Passthrough::new(&body);
    assert!(stream.should_store && stream.receiver_connected && !stream.upstream_failed);
    let plan = stream.on_block("data: {\"type\":\"x\"}", &body, None);
    assert_eq!(plan.store.as_deref(), Some("data: {\"type\":\"x\"}"));
    assert_eq!(plan.send.as_deref(), Some("data: {\"type\":\"x\"}\n\n"));
    let block = "data: {\"type\":\"response.created\",\"response\":{}}";
    let plan = stream.on_block(block, &body, None);
    let completed = "data: {\"type\":\"response.created\",\"response\":{\"store\":true}}";
    assert_eq!(plan.store.as_deref(), Some(completed));
    assert_eq!(plan.send, Some(format!("{completed}\n\n")));

    stream.on_disconnect();
    assert!(stream.keeps_reading());
    let plan = stream.on_block(block, &body, None);
    assert!(plan.store.is_some() && plan.send.is_none());
    let stored = stream.finish(Some(json("{}")), &body, Some("p")).unwrap();
    assert_eq!(
        stored,
        json(r#"{"previous_response_id":"p","store":true,"model":"m"}"#)
    );
    assert!(stream.finish(None, &body, None).is_none());
    stream.on_upstream_error();
    assert!(!stream.keeps_reading());
    assert!(stream.finish(Some(json("{}")), &body, None).is_none());
}

#[test]
fn nobody_reads_a_stream_that_nobody_wants() {
    let body = ResponsesRequest {
        store: Some(false),
        ..request()
    };
    let mut stream = Passthrough::new(&body);
    assert!(!stream.should_store && stream.keeps_reading());
    let plan = stream.on_block("data: x", &body, None);
    assert!(plan.store.is_none());
    assert_eq!(plan.send.as_deref(), Some("data: x\n\n"));
    assert!(stream.finish(Some(json("{}")), &body, None).is_none());
    stream.on_disconnect();
    assert!(!stream.keeps_reading());
}

#[test]
fn rewritten_blocks_read_back() {
    let block = "event: a\r\ndata: old\r\nid: 1";
    let rebuilt = rebuild_sse_block(block, r#"{"x":"\n"}"#);
    assert_eq!(
        parse_sse_block(&rebuilt),
        (Some("a".to_string()), r#"{"x":"\n"}"#.to_string())
    );
    let text = print(&Json::text("a\nb\rc\u{2028}"));
    assert!(!text.contains('\n') && !text.contains('\r'));
    let event = error_event("boom");
    assert_eq!(
        parse_sse_block(event.trim()),
        (
            Some("error".to_string()),
            r#"{"error":{"message":"boom"}}"#.to_string()
        )
    );
}

#[test]
fn a_stream_begins_once_and_lists_its_tools_once() {
    let body = request();
    let orchestrator = orchestrator();
    let mut servers = bindings();
    servers.push(McpServerBinding {
        label: "other".to_string(),
        server_key: "o".to_string(),
        allowed_tools: None,
    });
    let session = McpToolSession::new(&orchestrator, servers, "r");
    let ctx = StreamingEventContext {
        session: Some(&session),
        ..plain(&body)
    };
    let mut l = StreamLoop::new(
        json(r#"{"tools":[{"type":"function"}]}"#),
        &body,
        ResponseInput::Text("hi".to_string()),
    );
    assert_eq!(l.limit, 10);
    let mut h = l.begin_response();
    let mut sequence: u64 = 0;
    let list = vec![
        json(r#"{"id":"l1","type":"mcp_list_tools","server_label":"lab","tools":[]}"#),
        json(r#"{"id":"l2","type":"mcp_list_tools","server_label":"other","tools":[]}"#),
    ];
    let in_progress = SseEventData {
        raw_block: "",
        event_name: Some("response.in_progress"),
        data: r#"{"type":"response.in_progress","sequence_number":1}"#,
    };
    let (texts, execute) = l.on_event(
        &in_progress,
        StreamAction::Forward,
        &mut h,
        &ctx,
        &list,
        &mut sequence,
    );
    assert!(!execute);
    assert_eq!(texts.len(), 9);
    assert_eq!(sequence, 9);
    assert_eq!(h.next_output_index, 2);
    assert!(texts[1].contains("\"output_index\":0"));
    assert!(texts[5].contains("\"output_index\":1"));
    let (texts, _) = l.on_event(
        &in_progress,
        StreamAction::Forward,
        &mut h,
        &ctx,
        &list,
        &mut sequence,
    );
    assert_eq!(texts.len(), 1);
    let (texts, execute) = l.on_event(
        &in_progress,
        StreamAction::Buffer,
        &mut h,
        &ctx,
        &list,
        &mut sequence,
    );
    assert!(texts.is_empty() && !execute);
    let done = SseEventData {
        raw_block: "",
        event_name: Some("x"),
        data: r#"{"type":"x"}"#,
    };
    let (texts, execute) = l.on_event(
        &done,
        StreamAction::ExecuteTools,
        &mut h,
        &ctx,
        &list,
        &mut sequence,
    );
    assert!(execute);
    assert_eq!(texts.len(), 1);

    h.original_response_id = Some("resp_1".to_string());
    h.pending_calls = vec![pending(0, ""), pending(1, "")];
    assert_eq!(l.end_response(&h, true), ResponseEnd::MakeCalls);
    assert_eq!(l.state.total_calls, 2);
    for call in &h.pending_calls {
        let events =
            l.finish_call(call, &json("1"), json(r#"{"id":"i"}"#), &session, &mut sequence);
        assert_eq!(events.len(), 2);
    }
    assert_eq!(l.state.mcp_call_items.len(), 2);
    let payload = l.resume().unwrap();
    assert_eq!(payload.get("stream"), Some(&Json::Bool(true)));
    assert_eq!(payload.get("tools"), Some(&json(r#"[{"type":"function"}]"#)));

    let mut h = l.begin_response();
    assert_eq!(h.next_output_index, 2);
    assert_eq!(h.original_response_id.as_deref(), Some("resp_1"));
    let (texts, _) = l.on_event(
        &in_progress,
        StreamAction::Forward,
        &mut h,
        &ctx,
        &list,
        &mut sequence,
    );
    assert!(texts.is_empty());
    assert_eq!(l.end_response(&h, false), ResponseEnd::Finish);
    assert_eq!(l.state.iteration, 1);
    for i in 0..8 {
        h.pending_calls.push(pending(i, ""));
    }
    assert_eq!(l.end_response(&h, true), ResponseEnd::MakeCalls);
    assert_eq!(l.state.total_calls, 10);
    assert_eq!(l.end_response(&h, true), ResponseEnd::LimitReached);
}

#[test]
fn a_stream_that_cannot_go_on_says_why() {
    let body = request();
    let mut l = StreamLoop::new(json("[]"), &body, ResponseInput::Text("hi".to_string()));
    assert_eq!(l.resume(), Err("payload not an object".to_string()));
}

#[test]
fn blocks_are_read_line_by_line() {
    assert_eq!(
        parse_sse_block("event: a\ndata: {\"x\":1}"),
        (Some("a".to_string()), "{\"x\":1}".to_string())
    );
    assert_eq!(
        parse_sse_block("data: one\ndata: two"),
        (None, "one\ntwo".to_string())
    );
    assert_eq!(parse_sse_block(""), (None, "".to_string()));
    assert_eq!(
        rebuild_sse_block("event: a\ndata: old\nid: 7\ndata: older", "new"),
        "event: a\ndata: new\nid: 7"
    );
    assert_eq!(rebuild_sse_block("event: a", "new"), "event: a\ndata: new");
}

#[test]
fn json_keeps_the_order_of_its_entries() {
    let text = r#"{"b":1,"a":[true,null,-2.5,"x\"y"],"c":{}}"#;
    assert_eq!(print(&json(text)), text);
    assert_eq!(
        json(r#"{"b":1}"#),
        Json::Object(vec![("b".to_string(), Json::Number("1".to_string()))])
    );
    assert_eq!(
        parse("{"),
        Err("EOF while parsing an object at line 1 column 1".to_string())
    );
}

#[test]
fn a_stream_is_cut_at_empty_lines() {
    let mut chunks = ChunkProcessor::new();
    chunks.push_chunk("event: a\ndata: 1\n");
    assert_eq!(chunks.next_block(), None);
    chunks.push_chunk("\ndata: 2\n\nda");
    assert_eq!(chunks.next_block().as_deref(), Some("event: a\ndata: 1"));
    assert_eq!(chunks.next_block().as_deref(), Some("data: 2"));
    assert_eq!(chunks.next_block(), None);
    assert_eq!(chunks.take_remaining(), "da");
    assert_eq!(chunks.take_remaining(), "");
}

#[test]
fn internal_tools_are_kept_from_the_client() {
    let mut orchestrator = match McpOrchestrator::new(McpConfig {
        servers: vec![McpServerConfig {
            name: "hidden".to_string(),
            transport: McpTransport::Sse {
                url: "http://localhost/sse".to_string(),
                token: None,
                headers: Vec::new(),
            },
            proxy: None,
            required: false,
            tools: None,
            builtin_type: None,
            builtin_tool_name: None,
            internal: true,
        }],
        ..Default::default()
    }) {
        Ok(o) => o,
        Err(e) => panic!("{e:?}"),
    };
    for (server, name) in [("hidden", "secret"), ("k", "search")] {
        orchestrator
            .tool_inventory
            .insert_entry(ToolEntry::from_server_tool(
                server,
                Tool {
                    name: name.to_string(),
                    title: None,
                    description: None,
                    input_schema: Json::Null,
                    output_schema: None,
                    annotations: None,
                    icons: None,
                },
            ));
    }
    let mut servers = bindings();
    servers.push(McpServerBinding {
        label: "hidden-label".to_string(),
        server_key: "hidden".to_string(),
        allowed_tools: None,
    });
    let session = McpToolSession::new(&orchestrator, servers, "r");
    let listed: Vec<String> = servers_to_list(&session).into_iter().map(|s| s.label).collect();
    assert_eq!(listed, vec!["lab".to_string()]);

    let body = request();
    let ctx = StreamingEventContext {
        session: Some(&session),
        ..plain(&body)
    };
    let mut h = handler();
    h.pending_calls.push(FunctionCallInProgress {
        name: "secret".to_string(),
        ..pending(0, "{}")
    });
    h.pending_calls.push(pending(1, "{}"));
    let mut sequence: u64 = 0;
    let mut send = |name: &str, data: &str| {
        forward_streaming_event(
            &SseEventData {
                raw_block: "",
                event_name: Some(name),
                data,
            },
            &h,
            &ctx,
            &mut sequence,
        )
    };
    let item = |name: &str| {
        format!(
            r#"{{"type":"response.output_item.added","output_index":0,"item":{{"type":"function_call","name":"{name}","id":"fc_1"}}}}"#
        )
    };
    assert!(send("response.output_item.added", &item("secret")).is_empty());
    assert_eq!(send("response.output_item.added", &item("search")).len(), 2);
    let arguments = |index: usize| {
        format!(
            r#"{{"type":"response.function_call_arguments.done","output_index":{index},"item_id":"fc_1"}}"#
        )
    };
    assert!(send("response.function_call_arguments.done", &arguments(0)).is_empty());
    assert_eq!(send("response.function_call_arguments.done", &arguments(1)).len(), 2);
    let texts = send(
        "response.created",
        r#"{"type":"response.created","response":{"store":true,"tools":[{"type":"function","name":"secret"},{"type":"function","name":"search"}],"output":[{"type":"mcp_call","name":"secret"}]}}"#,
    );
    assert_eq!(
        texts,
        vec![
            "event: response.created\ndata: {\"type\":\"response.created\",\"response\":{\"store\":true,\"tools\":[{\"type\":\"function\",\"name\":\"search\"}],\"output\":[]}}\n\n"
                .to_string()
        ]
    );
}

#[test]
fn the_head_of_a_plain_stream_follows_the_model() {
    assert_eq!(
        StreamHead::of(Err("refused".to_string())),
        StreamHead::Unreached {
            status: 502,
            recorded: 502,
            message: "Failed to forward request to OpenAI: refused".to_string(),
        }
    );
    assert_eq!(
        StreamHead::of(Ok(200)),
        StreamHead::Events { status: 200, recorded: 200 }
    );
    assert_eq!(
        StreamHead::of(Ok(299)),
        StreamHead::Events { status: 299, recorded: 299 }
    );
    assert_eq!(
        StreamHead::of(Ok(429)),
        StreamHead::Refused { status: 429, recorded: 429 }
    );
    assert_eq!(
        StreamHead::of(Ok(99)),
        StreamHead::Refused { status: 500, recorded: 99 }
    );
    assert_eq!(refusal_body(Ok("body".to_string())), "body");
    assert_eq!(
        refusal_body(Err("eof".to_string())),
        "Failed to read upstream error body: eof"
    );
    assert_eq!(added_content_type(false), Some("text/event-stream"));
    assert_eq!(added_content_type(true), None);
}

#[test]
fn the_last_payload_of_a_block_wins() {
    let block = "event: a\ndata: old\nid: 7\ndata: older";
    assert_eq!(
        rebuild_sse_block(&rebuild_sse_block(block, "p"), "q"),
        rebuild_sse_block(block, "q")
    );
    let gap = "data: a\n\ndata: b";
    assert_eq!(rebuild_sse_block(gap, "q"), "data: q\n");
    assert_eq!(rebuild_sse_block(&rebuild_sse_block(gap, "p"), "q"), "data: q");
}

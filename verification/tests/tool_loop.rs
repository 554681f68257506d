use mcp_gateway::config::{McpConfig, McpServerConfig, McpTransport};
use mcp_gateway::inventory::{ResponseFormat, Tool, ToolEntry};
use mcp_gateway::json::Json;
use mcp_gateway::orchestrator::McpOrchestrator;
use mcp_gateway::request::ResponseInput;
use mcp_gateway::session::{McpServerBinding, McpToolSession};
use mcp_gateway::tool_loop::{
    build_incomplete_response, build_mcp_call_item, build_resume_payload, effective_limit,
    extract_function_calls, finish_streamed_call, inject_mcp_metadata_streaming,
    is_internal_mcp_response_item, mcp_list_tools_events, open_call_count,
    prepare_mcp_tools_as_functions, replace_fc_prefix, servers_to_list, streamed_call_step,
    tool_call_completion_events, tool_call_intermediate_event, CallStep, FunctionCallInProgress,
    ResponseStep, StreamedCallStep, ToolLoop, ToolLoopState, UpstreamFailure,
};
use mcp_gateway::wire::parse;

fn orchestrator() -> McpOrchestrator {
    let config = McpConfig {
        servers: vec![McpServerConfig {
            name: "hidden".to_string(),
            transport: McpTransport::Sse {
                url: "http://localhost/sse".to_string(),
                token: None,
                headers: Vec::new(),
            },
            proxy: None,
            required: false,
            tools: None,
            builtin_type: None,
            builtin_tool_name: None,
            internal: true,
        }],
        ..Default::default()
    };
    let mut orchestrator = match McpOrchestrator::new(config) {
        Ok(o) => o,
        Err(e) => panic!("{e:?}"),
    };
    let tool = |name: &str| Tool {
        name: name.to_string(),
        title: None,
        description: None,
        output_schema: None,
        annotations: None,
        icons: None,
        input_schema: Json::Object(Vec::new()),
    };
    orchestrator
        .tool_inventory
        .insert_entry(ToolEntry::from_server_tool("hidden", tool("secret")));
    orchestrator
        .tool_inventory
        .insert_entry(ToolEntry::from_server_tool("open", tool("search")));
    orchestrator.tool_inventory.insert_entry(
        ToolEntry::from_server_tool("open", tool("web"))
            .with_response_format(ResponseFormat::WebSearchCall),
    );
    orchestrator
}

fn bindings() -> Vec<McpServerBinding> {
    ["hidden", "open"]
        .iter()
        .map(|key| McpServerBinding {
            label: format!("{key}-label"),
            server_key: key.to_string(),
            allowed_tools: None,
        })
        .collect()
}

fn json(text: &str) -> Json {
    parse(text).unwrap()
}

fn text_input() -> ResponseInput {
    ResponseInput::Text("hi".to_string())
}

fn response_with_calls(n: usize) -> Json {
    let calls: Vec<String> = (0..n)
        .map(|i| {
            format!(
                r#"{{"type":"function_call","call_id":"c{i}","name":"search","arguments":"{{}}"}}"#
            )
        })
        .collect();
    json(&format!(r#"{{"output":[{}]}}"#, calls.join(",")))
}

#[test]
fn calls_are_recorded_with_their_results() {
    let mut state = ToolLoopState::new(text_input());
    state.record_call("c1", "search", "{}", "out", json(r#"{"id":"m"}"#));
    assert_eq!(
        state.conversation_history,
        vec![
            json(r#"{"type":"function_call","call_id":"c1","name":"search","arguments":"{}"}"#),
            json(r#"{"type":"function_call_output","call_id":"c1","output":"out"}"#),
        ]
    );
    assert_eq!(state.mcp_call_items, vec![json(r#"{"id":"m"}"#)]);
    assert_eq!(state.iteration, 0);
    assert_eq!(state.total_calls, 0);
}

#[test]
fn function_tools_replace_the_others() {
    let mut payload = json(r#"{"tools":[{"type":"mcp"},{"type":"function","name":"mine"}],"x":1}"#);
    prepare_mcp_tools_as_functions(&mut payload, vec![json(r#"{"type":"function","name":"s"}"#)]);
    assert_eq!(
        payload,
        json(
            r#"{"tools":[{"type":"function","name":"mine"},{"type":"function","name":"s"}],"x":1,"tool_choice":"auto"}"#
        )
    );
    let mut bare = json(r#"{"x":1}"#);
    prepare_mcp_tools_as_functions(&mut bare, vec![]);
    assert_eq!(bare, json(r#"{"x":1}"#));
    let mut emptied = json(r#"{"tools":[{"type":"mcp"}]}"#);
    prepare_mcp_tools_as_functions(&mut emptied, vec![]);
    assert_eq!(emptied, json(r#"{"tools":[]}"#));
    let mut other = json("[]");
    prepare_mcp_tools_as_functions(&mut other, vec![Json::Null]);
    assert_eq!(other, json("[]"));
}

#[test]
fn the_conversation_goes_on_with_its_history() {
    let base = json(r#"{"model":"m","input":"old","store":true}"#);
    let history = vec![json(r#"{"a":1}"#)];
    let tools = json(r#"[{"type":"function"}]"#);
    let resumed = build_resume_payload(&base, &history, &text_input(), &tools, true).unwrap();
    assert_eq!(
        resumed,
        json(
            r#"{"model":"m","input":[{"type":"message","role":"user","content":[{"type":"input_text","text":"hi"}]},{"a":1}],"store":false,"tools":[{"type":"function"}],"stream":true}"#
        )
    );
    let items = ResponseInput::Items(vec![json("1"), json("2")]);
    let resumed = build_resume_payload(&base, &history, &items, &json("[]"), false).unwrap();
    assert_eq!(
        resumed,
        json(r#"{"model":"m","input":[1,2,{"a":1}],"store":false,"stream":false}"#)
    );
    assert_eq!(
        build_resume_payload(&json("[]"), &history, &items, &json("[]"), false),
        Err("payload not an object".to_string())
    );
}

#[test]
fn function_calls_are_found_in_a_response() {
    let response = json(
        r#"{"output":[
            {"type":"message"},
            7,
            {"type":"function_call","call_id":"a","id":"b","name":"n","arguments":"{}"},
            {"type":"function_tool_call","id":"b","name":"n2","arguments":"[]"},
            {"type":"function_call","call_id":"c","name":"n3"}
        ]}"#,
    );
    let calls = extract_function_calls(&response);
    assert_eq!(calls.len(), 2);
    assert_eq!((calls[0].call_id.as_str(), calls[0].name.as_str()), ("a", "n"));
    assert_eq!(
        (calls[1].call_id.as_str(), calls[1].arguments.as_str()),
        ("b", "[]")
    );
    assert!(extract_function_calls(&json("{}")).is_empty());
}

#[test]
fn internal_servers_are_left_out_of_responses() {
    let orchestrator = orchestrator();
    let session = McpToolSession::new(&orchestrator, bindings(), "r");
    let listed = servers_to_list(&session);
    assert_eq!(listed.len(), 1);
    assert_eq!(listed[0].label, "open-label");
    assert!(is_internal_mcp_response_item(
        &json(r#"{"server_label":"hidden-label"}"#),
        &session
    ));
    assert!(!is_internal_mcp_response_item(
        &json(r#"{"server_label":"open-label"}"#),
        &session
    ));
    let mut state = ToolLoopState::new(text_input());
    state.record_call("c", "secret", "{}", "o", json(r#"{"id":"s","server_label":"hidden-label"}"#));
    state.record_call("d", "search", "{}", "o", json(r#"{"id":"t","server_label":"open-label"}"#));
    let list = json(r#"{"type":"mcp_list_tools","server_label":"open-label"}"#);
    let mut response = json(r#"{"output":[{"type":"mcp_list_tools"},{"type":"message"}]}"#);
    inject_mcp_metadata_streaming(&mut response, &state, &session, vec![list.clone()]);
    assert_eq!(
        response,
        json(
            r#"{"output":[{"type":"mcp_list_tools","server_label":"open-label"},{"id":"t","server_label":"open-label"},{"type":"message"}]}"#
        )
    );
    let mut bare = json(r#"{"id":"r"}"#);
    inject_mcp_metadata_streaming(&mut bare, &state, &session, vec![list]);
    assert_eq!(
        bare,
        json(
            r#"{"id":"r","output":[{"type":"mcp_list_tools","server_label":"open-label"},{"id":"t","server_label":"open-label"}]}"#
        )
    );
}

#[test]
fn call_items_say_what_happened() {
    assert_eq!(
        build_mcp_call_item("mcp_1", "n", "{}", "out", "lab", true, None),
        json(
            r#"{"id":"mcp_1","type":"mcp_call","status":"completed","approval_request_id":null,"arguments":"{}","error":null,"name":"n","output":"out","server_label":"lab"}"#
        )
    );
    let failed = build_mcp_call_item("mcp_2", "n", "{}", "", "lab", false, Some("why"));
    assert_eq!(failed.get_str("status"), Some("failed"));
    assert_eq!(failed.get_str("error"), Some("why"));
}

#[test]
fn a_response_cut_short_shows_what_was_not_done() {
    let orchestrator = orchestrator();
    let session = McpToolSession::new(&orchestrator, bindings(), "r");
    let mut state = ToolLoopState::new(text_input());
    state.iteration = 2;
    state.total_calls = 3;
    let response = json(
        r#"{"status":"x","output":[{"type":"function_call","name":"search","arguments":"{\"q\":1}"},{"type":"function_call","name":"secret"}],"metadata":{"mcp":{}}}"#,
    );
    assert_eq!(open_call_count(&response), 2);
    let ids = vec!["mcp_1".to_string(), "mcp_2".to_string()];
    let lists = vec![json(r#"{"type":"mcp_list_tools","server_label":"open-label"}"#)];
    let cut = build_incomplete_response(
        response,
        &state,
        "max_tool_calls",
        &session,
        lists.clone(),
        &ids,
    )
    .unwrap();
    assert_eq!(cut.get_str("status"), Some("completed"));
    assert_eq!(
        cut.get("incomplete_details"),
        Some(&json(r#"{"reason":"max_tool_calls"}"#))
    );
    let output = cut.get_array("output").unwrap();
    assert_eq!(output.len(), 4);
    assert_eq!(output[0].get_str("type"), Some("mcp_list_tools"));
    assert_eq!(
        output[1],
        build_mcp_call_item(
            "mcp_1",
            "search",
            "{\"q\":1}",
            "",
            "open-label",
            false,
            Some("Not executed - response stopped due to limit")
        )
    );
    assert_eq!(output[2].get_str("type"), Some("function_call"));
    assert_eq!(
        cut.get("metadata").unwrap().get("mcp").unwrap().get_str("truncation_warning"),
        Some("Loop terminated at 2 iterations, 3 total calls (reason: max_tool_calls)")
    );
    assert_eq!(
        build_incomplete_response(json("[]"), &state, "x", &session, lists, &vec![]),
        Err("response not an object".to_string())
    );
}

#[test]
fn limits_never_exceed_that_of_the_gateway() {
    assert_eq!(effective_limit(None), 10);
    assert_eq!(effective_limit(Some(3)), 3);
    assert_eq!(effective_limit(Some(11)), 10);
    assert_eq!(effective_limit(Some(0)), 0);
}

#[test]
fn a_loop_ends_with_a_response_without_calls() {
    let orchestrator = orchestrator();
    let session = McpToolSession::new(&orchestrator, bindings(), "r");
    let mut l = ToolLoop::new(json(r#"{"model":"m"}"#), text_input(), None);
    assert_eq!(
        l.on_response(&json(r#"{"output":[]}"#)),
        ResponseStep::Finish { report_calls: false }
    );
    assert_eq!(l.on_response(&response_with_calls(1)), ResponseStep::MakeCalls);
    match l.next_call(&session) {
        CallStep::Execute { call, input } => {
            assert_eq!(input.call_id, "c0");
            assert_eq!(input.tool_name, "search");
            assert_eq!(input.arguments, json("{}"));
            l.record(&call, "done", Json::Null);
        }
        _ => panic!("a call"),
    }
    match l.next_call(&session) {
        CallStep::Resume(Ok(payload)) => {
            assert_eq!(payload.get_array("input").unwrap().len(), 3);
            assert_eq!(payload.get("stream"), Some(&Json::Bool(false)));
        }
        _ => panic!("the conversation goes on"),
    }
    assert_eq!(
        l.on_response(&json("{}")),
        ResponseStep::Finish { report_calls: true }
    );
    assert_eq!(l.state.iteration, 1);
    assert_eq!(l.state.total_calls, 1);
}

#[test]
fn a_loop_stops_at_its_limit() {
    let orchestrator = orchestrator();
    let session = McpToolSession::new(&orchestrator, bindings(), "r");
    let mut l = ToolLoop::new(json("{}"), text_input(), Some(2));
    assert_eq!(l.on_response(&response_with_calls(3)), ResponseStep::MakeCalls);
    for i in 0..2 {
        match l.next_call(&session) {
            CallStep::Execute { call, input } => {
                assert_eq!(input.call_id, format!("c{i}"));
                l.record(&call, "o", Json::Null);
            }
            _ => panic!("a call"),
        }
    }
    assert!(matches!(l.next_call(&session), CallStep::LimitReached));
    assert_eq!(l.state.total_calls, 3);
    assert_eq!(l.state.mcp_call_items.len(), 2);
}

#[test]
fn arguments_are_recorded_as_the_model_wrote_them() {
    let orchestrator = orchestrator();
    let session = McpToolSession::new(&orchestrator, bindings(), "r");
    let mut l = ToolLoop::new(json("{}"), text_input(), None);
    let response = json(
        r#"{"output":[{"type":"function_call","call_id":"c","name":"n","arguments":"{ \"b\" : 1 }"}]}"#,
    );
    assert_eq!(l.on_response(&response), ResponseStep::MakeCalls);
    match l.next_call(&session) {
        CallStep::Execute { call, input } => {
            assert_eq!(input.arguments, json(r#"{"b":1}"#));
            l.record(&call, "o", Json::Null);
        }
        _ => panic!("a call"),
    }
    assert_eq!(
        l.state.conversation_history[0].get_str("arguments"),
        Some(r#"{ "b" : 1 }"#)
    );
    assert_eq!(l.state.conversation_history[1].get_str("output"), Some("o"));
}

#[test]
fn arguments_that_are_no_json_are_answered() {
    let orchestrator = orchestrator();
    let session = McpToolSession::new(&orchestrator, bindings(), "r");
    let mut l = ToolLoop::new(json("{}"), text_input(), None);
    let response = json(
        r#"{"output":[{"type":"function_call","call_id":"c","name":"web","arguments":"oops"}]}"#,
    );
    assert_eq!(l.on_response(&response), ResponseStep::MakeCalls);
    match l.next_call(&session) {
        CallStep::Invalid { call, output, error, response_format, server_label } => {
            assert_eq!(call.call_id, "c");
            assert_eq!(response_format, ResponseFormat::WebSearchCall);
            assert_eq!(server_label, "open-label");
            assert_eq!(
                output,
                "Invalid tool arguments: expected value at line 1 column 1"
            );
            assert_eq!(error.get_str("error"), Some(output.as_str()));
        }
        _ => panic!("the arguments are wrong"),
    }
}

#[test]
fn a_payload_that_is_no_object_cannot_go_on() {
    let orchestrator = orchestrator();
    let session = McpToolSession::new(&orchestrator, bindings(), "r");
    let mut l = ToolLoop::new(json("[]"), text_input(), None);
    match l.next_call(&session) {
        CallStep::Resume(Err(e)) => assert_eq!(e, "payload not an object"),
        _ => panic!("it cannot go on"),
    }
}

#[test]
fn failures_of_the_model_are_named() {
    assert_eq!(
        UpstreamFailure::Request("x".to_string()).to_string(),
        "upstream request failed: x"
    );
    let refused = UpstreamFailure::Status {
        status: "500 Internal Server Error".to_string(),
        body: "b".to_string(),
    };
    assert_eq!(refused.to_string(), "upstream error 500 Internal Server Error: b");
    assert_eq!(
        UpstreamFailure::Parse("x".to_string()).to_string(),
        "parse response: x"
    );
}

#[test]
fn a_label_that_an_internal_server_shares_is_not_listed() {
    let orchestrator = orchestrator();
    let bound = |label: &str, key: &str| McpServerBinding {
        label: label.to_string(),
        server_key: key.to_string(),
        allowed_tools: None,
    };
    for servers in [
        vec![bound("shared", "open"), bound("shared", "hidden"), bound("own", "open")],
        vec![bound("own", "open"), bound("shared", "hidden"), bound("shared", "open")],
    ] {
        let session = McpToolSession::new(&orchestrator, servers, "r");
        assert!(session.is_internal_server_label("shared"));
        assert!(!session.is_internal_server_label("own"));
        assert!(!session.is_internal_server_label("other"));
        let listed = servers_to_list(&session);
        assert_eq!(listed.len(), 1);
        assert_eq!(listed[0].label, "own");
        assert!(is_internal_mcp_response_item(
            &json(r#"{"server_label":"shared"}"#),
            &session
        ));
    }
}

#[test]
fn tools_are_listed_by_four_events() {
    let mut sequence: u64 = 5;
    let item = json(r#"{"id":"l1","type":"mcp_list_tools","tools":[1]}"#);
    let events = mcp_list_tools_events(&item, 2, &mut sequence);
    assert_eq!(sequence, 9);
    assert_eq!(
        events,
        vec![
            "event: response.output_item.added\ndata: {\"type\":\"response.output_item.added\",\"sequence_number\":5,\"output_index\":2,\"item\":{\"id\":\"l1\",\"type\":\"mcp_list_tools\",\"tools\":[]}}\n\n".to_string(),
            "event: response.mcp_list_tools.in_progress\ndata: {\"type\":\"response.mcp_list_tools.in_progress\",\"sequence_number\":6,\"output_index\":2,\"item_id\":\"l1\"}\n\n".to_string(),
            "event: response.mcp_list_tools.completed\ndata: {\"type\":\"response.mcp_list_tools.completed\",\"sequence_number\":7,\"output_index\":2,\"item_id\":\"l1\"}\n\n".to_string(),
            "event: response.output_item.done\ndata: {\"type\":\"response.output_item.done\",\"sequence_number\":8,\"output_index\":2,\"item\":{\"id\":\"l1\",\"type\":\"mcp_list_tools\",\"tools\":[1]}}\n\n".to_string(),
        ]
    );
}

fn call(name: &str, arguments: &str) -> FunctionCallInProgress {
    FunctionCallInProgress {
        call_id: "fc_1".to_string(),
        name: name.to_string(),
        arguments_buffer: arguments.to_string(),
        output_index: 3,
        assigned_output_index: Some(4),
        last_obfuscation: None,
    }
}

#[test]
fn running_calls_are_announced_by_their_format() {
    let orchestrator = orchestrator();
    let session = McpToolSession::new(&orchestrator, bindings(), "r");
    let mut sequence: u64 = 0;
    let c = call("web", "");
    assert_eq!(
        tool_call_intermediate_event(&c, ResponseFormat::Passthrough, &session, &mut sequence),
        None
    );
    assert_eq!(sequence, 0);
    assert_eq!(
        tool_call_intermediate_event(&c, ResponseFormat::WebSearchCall, &session, &mut sequence)
            .unwrap(),
        "event: response.web_search_call.searching\ndata: {\"type\":\"response.web_search_call.searching\",\"sequence_number\":0,\"output_index\":4,\"item_id\":\"ws_1\"}\n\n"
    );
    let event = tool_call_intermediate_event(
        &c,
        ResponseFormat::CodeInterpreterCall,
        &session,
        &mut sequence,
    )
    .unwrap();
    assert!(event.contains("response.code_interpreter_call.interpreting"));
    assert!(event.contains("ci_1"));
    let event =
        tool_call_intermediate_event(&c, ResponseFormat::FileSearchCall, &session, &mut sequence)
            .unwrap();
    assert!(event.contains("response.file_search_call.searching"));
    assert!(event.contains("fs_1"));
    assert_eq!(sequence, 3);
    assert_eq!(replace_fc_prefix("call_1", "ws_"), "call_1");
}

#[test]
fn completed_calls_are_announced_by_their_item() {
    let mut sequence: u64 = 1;
    let events = tool_call_completion_events(
        &call("web", ""),
        &json(r#"{"id":"ws_1","type":"web_search_call"}"#),
        &mut sequence,
    );
    assert_eq!(sequence, 3);
    assert_eq!(
        events,
        vec![
            "event: response.web_search_call.completed\ndata: {\"type\":\"response.web_search_call.completed\",\"sequence_number\":1,\"output_index\":4,\"item_id\":\"ws_1\"}\n\n".to_string(),
            "event: response.output_item.done\ndata: {\"type\":\"response.output_item.done\",\"sequence_number\":2,\"output_index\":4,\"item\":{\"id\":\"ws_1\",\"type\":\"web_search_call\"}}\n\n".to_string(),
        ]
    );
    for (item, event) in [
        (r#"{"type":"code_interpreter_call"}"#, "response.code_interpreter_call.completed"),
        (r#"{"type":"file_search_call"}"#, "response.file_search_call.completed"),
        (r#"{"type":"mcp_call"}"#, "response.mcp_call.completed"),
        ("{}", "response.mcp_call.completed"),
    ] {
        let events = tool_call_completion_events(&call("x", ""), &json(item), &mut sequence);
        assert!(events[0].contains(event));
    }
}

#[test]
fn streamed_calls_are_made_or_answered() {
    let orchestrator = orchestrator();
    let session = McpToolSession::new(&orchestrator, bindings(), "r");
    assert!(matches!(
        streamed_call_step(&call("", "{}"), &session),
        StreamedCallStep::Skip
    ));
    match streamed_call_step(&call("web", ""), &session) {
        StreamedCallStep::Execute { input, response_format } => {
            assert_eq!(input.call_id, "fc_1");
            assert_eq!(input.tool_name, "web");
            assert_eq!(input.arguments, json("{}"));
            assert_eq!(response_format, ResponseFormat::WebSearchCall);
        }
        _ => panic!("a call"),
    }
    match streamed_call_step(&call("search", "oops"), &session) {
        StreamedCallStep::Invalid { error, response_format, server_label } => {
            assert_eq!(
                error.get_str("error"),
                Some("Failed to parse tool arguments: expected value at line 1 column 1")
            );
            assert_eq!(response_format, ResponseFormat::Passthrough);
            assert_eq!(server_label, "open-label");
        }
        _ => panic!("the arguments are wrong"),
    }
    let mut state = ToolLoopState::new(text_input());
    let mut sequence: u64 = 0;
    let events = finish_streamed_call(
        &mut state,
        &call("web", ""),
        &json(r#"{"k":1}"#),
        json(r#"{"id":"i"}"#),
        &session,
        &mut sequence,
    );
    assert_eq!(events.len(), 2);
    assert_eq!(sequence, 2);
    assert_eq!(
        state.conversation_history[1].get_str("output"),
        Some(r#"{"k":1}"#)
    );
    assert_eq!(state.conversation_history[0].get_str("arguments"), Some(""));
    assert_eq!(state.mcp_call_items, vec![json(r#"{"id":"i"}"#)]);
}

#[test]
fn calls_of_internal_tools_are_not_announced() {
    let orchestrator = orchestrator();
    let session = McpToolSession::new(&orchestrator, bindings(), "r");
    let mut sequence: u64 = 5;
    let hidden = call("secret", "{}");
    assert_eq!(
        tool_call_intermediate_event(
            &hidden,
            ResponseFormat::WebSearchCall,
            &session,
            &mut sequence
        ),
        None
    );
    let mut state = ToolLoopState::new(text_input());
    let events = finish_streamed_call(
        &mut state,
        &hidden,
        &json("1"),
        json(r#"{"id":"i","server_label":"hidden-label"}"#),
        &session,
        &mut sequence,
    );
    assert!(events.is_empty());
    assert_eq!(sequence, 5);
    assert_eq!(state.conversation_history.len(), 2);
}

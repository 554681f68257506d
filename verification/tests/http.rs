use mcp_gateway::config::{McpProxyConfig, McpServerConfig, McpTransport};
use mcp_gateway::error::McpError;
use mcp_gateway::http::{
    build_http_client, build_request_headers, connect_dynamic_plan, connect_error,
    connect_server_plan, resolve_proxy_config, ConnectPlan, ConnectStep,
};

fn pairs(list: Vec<(&str, &str)>) -> Vec<(String, String)> {
    list.into_iter()
        .map(|(k, v)| (k.to_string(), v.to_string()))
        .collect()
}

fn proxy(http: &str) -> McpProxyConfig {
    McpProxyConfig {
        http: Some(http.to_string()),
        https: None,
        no_proxy: None,
        username: None,
        password: None,
    }
}

fn server(transport: McpTransport) -> McpServerConfig {
    McpServerConfig {
        name: "s".to_string(),
        transport,
        proxy: None,
        required: false,
        tools: None,
        builtin_type: None,
        builtin_tool_name: None,
        internal: false,
    }
}

#[test]
fn headers_carry_the_token() {
    let headers =
        build_request_headers(&Some("abc".to_string()), &pairs(vec![("X-Key", "v")])).unwrap();
    assert_eq!(
        headers,
        pairs(vec![("authorization", "Bearer abc"), ("x-key", "v")])
    );
    assert!(build_request_headers(&None, &Vec::new()).unwrap().is_empty());
}

#[test]
fn a_custom_header_replaces_the_token() {
    let headers =
        build_request_headers(&Some("abc".to_string()), &pairs(vec![("Authorization", "x")]))
            .unwrap();
    assert_eq!(headers, pairs(vec![("authorization", "x")]));
}

#[test]
fn header_errors_name_the_part_that_is_wrong() {
    assert_eq!(
        build_request_headers(&Some("a\nb".to_string()), &Vec::new()),
        Err(McpError::Transport(
            "auth token: failed to parse header value".to_string()
        ))
    );
    assert_eq!(
        build_request_headers(&None, &pairs(vec![("bad name", "v")])),
        Err(McpError::Transport(
            "header name: invalid HTTP header name".to_string()
        ))
    );
    assert_eq!(
        build_request_headers(&None, &pairs(vec![("name", "v\r")])),
        Err(McpError::Transport(
            "header value: failed to parse header value".to_string()
        ))
    );
    assert!(build_request_headers(&None, &pairs(vec![("", "v")])).is_err());
}

#[test]
fn a_server_has_its_own_proxy_or_the_global_one() {
    let mut config = server(McpTransport::Sse {
        url: "http://x".to_string(),
        token: None,
        headers: Vec::new(),
    });
    let global = Some(proxy("http://global"));
    assert_eq!(
        resolve_proxy_config(&config, &global).unwrap().http.as_deref(),
        Some("http://global")
    );
    assert!(resolve_proxy_config(&config, &None).is_none());
    config.proxy = Some(proxy("http://own"));
    assert_eq!(
        resolve_proxy_config(&config, &global).unwrap().http.as_deref(),
        Some("http://own")
    );
}

#[test]
fn a_client_has_headers_only_where_there_are_any() {
    let plan = match build_http_client(None, &Ok(()), &None, &Vec::new()) {
        Ok(plan) => plan,
        Err(e) => panic!("{e:?}"),
    };
    assert_eq!(plan.connect_timeout_secs, 10);
    assert!(plan.proxy.is_none());
    assert!(plan.default_headers.is_none());
    let plan = match build_http_client(None, &Ok(()), &Some("t".to_string()), &Vec::new()) {
        Ok(plan) => plan,
        Err(e) => panic!("{e:?}"),
    };
    assert_eq!(
        plan.default_headers,
        Some(pairs(vec![("authorization", "Bearer t")]))
    );
}

#[test]
fn local_programs_are_for_configured_servers_only() {
    let config = server(McpTransport::Stdio {
        command: "run".to_string(),
        args: vec!["a".to_string()],
        envs: pairs(vec![("K", "V")]),
    });
    match connect_server_plan(&config, &None, &Ok(())) {
        Ok(ConnectPlan::Stdio { command, args, envs }) => {
            assert_eq!(command, "run");
            assert_eq!(args, &vec!["a".to_string()]);
            assert_eq!(envs, &pairs(vec![("K", "V")]));
        }
        _ => panic!("a local program"),
    }
    match connect_dynamic_plan(&config, &None, &Ok(())) {
        Err(e) => assert_eq!(
            e,
            McpError::Transport("Stdio not supported for dynamic connections".to_string())
        ),
        Ok(_) => panic!("accepted"),
    }
    let config = server(McpTransport::Streamable {
        url: "http://x".to_string(),
        token: Some("t".to_string()),
        headers: Vec::new(),
    });
    match connect_dynamic_plan(&config, &None, &Ok(())) {
        Ok(ConnectPlan::Streamable { url, client }) => {
            assert_eq!(url, "http://x");
            assert!(client.default_headers.is_some());
        }
        _ => panic!("another transport"),
    }
}

#[test]
fn connection_errors_name_the_step() {
    let text = |step| connect_error(step, "x");
    assert_eq!(
        text(ConnectStep::HttpClient),
        McpError::Transport("build HTTP client: x".to_string())
    );
    assert_eq!(
        text(ConnectStep::StdioTransport),
        McpError::Transport("create stdio transport: x".to_string())
    );
    assert_eq!(
        text(ConnectStep::StdioHandshake),
        McpError::ConnectionFailed("initialize stdio client: x".to_string())
    );
    assert_eq!(
        text(ConnectStep::SseTransport),
        McpError::Transport("create SSE transport: x".to_string())
    );
    assert_eq!(
        text(ConnectStep::SseHandshake),
        McpError::ConnectionFailed("initialize SSE client: x".to_string())
    );
    assert_eq!(
        text(ConnectStep::StreamableHandshake),
        McpError::ConnectionFailed("initialize streamable client: x".to_string())
    );
    assert_eq!(
        text(ConnectStep::DynamicSseHandshake),
        McpError::ConnectionFailed("SSE: x".to_string())
    );
    assert_eq!(
        text(ConnectStep::DynamicStreamableHandshake),
        McpError::ConnectionFailed("streamable: x".to_string())
    );
}

#[test]
fn internal_servers_are_connected_like_others() {
    let shown = server(McpTransport::Sse {
        url: "http://x/sse".to_string(),
        token: Some("t".to_string()),
        headers: Vec::new(),
    });
    let internal = McpServerConfig { internal: true, ..shown.clone() };
    let none = None;
    match (
        connect_server_plan(&shown, &none, &Ok(())),
        connect_server_plan(&internal, &none, &Ok(())),
    ) {
        (
            Ok(ConnectPlan::Sse { url: a, client: c }),
            Ok(ConnectPlan::Sse { url: b, client: d }),
        ) => {
            assert_eq!(a, b);
            assert_eq!(c.default_headers, d.default_headers);
            assert_eq!(c.connect_timeout_secs, d.connect_timeout_secs);
        }
        _ => panic!("both are reached by events"),
    }
}

#[test]
fn a_bad_proxy_is_reported_before_bad_headers() {
    let url = "http://x".to_string();
    let headers = pairs(vec![("a b", "v")]);
    let bad_name = McpError::Transport("header name: invalid HTTP header name".to_string());
    let bad_proxy = McpError::Transport("no such proxy".to_string());
    let outcome = Err(bad_proxy.clone());
    let plain = server(McpTransport::Streamable { url, token: None, headers });
    let proxied = McpServerConfig { proxy: Some(proxy("http://own")), ..plain.clone() };
    assert_eq!(connect_server_plan(&proxied, &None, &outcome).err(), Some(bad_proxy.clone()));
    assert_eq!(connect_dynamic_plan(&proxied, &None, &outcome).err(), Some(bad_proxy));
    assert_eq!(connect_server_plan(&proxied, &None, &Ok(())).err(), Some(bad_name.clone()));
    assert_eq!(connect_server_plan(&plain, &None, &outcome).err(), Some(bad_name));
    let local = server(McpTransport::Stdio {
        command: "run".to_string(),
        args: Vec::new(),
        envs: Vec::new(),
    });
    let local = McpServerConfig { proxy: Some(proxy("http://own")), ..local };
    assert!(connect_server_plan(&local, &None, &outcome).is_ok());
    assert_eq!(
        connect_dynamic_plan(&local, &None, &outcome).err(),
        Some(McpError::Transport("Stdio not supported for dynamic connections".to_string()))
    );
}

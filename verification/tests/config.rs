use mcp_gateway::config::{
    BuiltinToolType, ConfigValidationError, InventoryConfig, McpConfig, McpPoolConfig,
    McpProxyConfig, McpServerConfig, McpTransport, PolicyConfig, PolicyDecisionConfig, PolicyWire,
    ProxyVars, RedactedTransport, ResponseFormatConfig, ServerPolicyConfig, ToolConfig,
    TrustLevelConfig,
};

fn sse_server(name: &str, url: &str) -> McpServerConfig {
    McpServerConfig {
        name: name.to_string(),
        transport: McpTransport::Sse { url: url.to_string(), token: None, headers: Vec::new() },
        proxy: None,
        required: false,
        tools: None,
        builtin_type: None,
        builtin_tool_name: None,
        internal: false,
    }
}

fn no_vars() -> ProxyVars {
    ProxyVars {
        mcp_http_proxy: None,
        http_proxy: None,
        mcp_https_proxy: None,
        https_proxy: None,
        mcp_no_proxy: None,
        no_proxy: None,
    }
}

#[test]
fn test_default_pool_config() {
    let config = McpPoolConfig::default();
    assert_eq!(config.max_connections, 100);
    assert_eq!(config.idle_timeout, 300);
}

#[test]
fn test_default_inventory_config() {
    let config = InventoryConfig::default();
    assert!(config.enable_refresh);
    assert_eq!(config.tool_ttl, 300);
    assert_eq!(config.refresh_interval, 60);
    assert!(config.refresh_on_error);
}

#[test]
fn test_proxy_from_env_empty() {
    let proxy = McpProxyConfig::from_vars(no_vars());
    assert!(proxy.is_none(), "Should return None when no env vars set");
}

#[test]
fn test_proxy_from_env_with_vars() {
    let proxy = McpProxyConfig::from_vars(ProxyVars {
        mcp_http_proxy: Some("http://test-proxy:8080".to_string()),
        mcp_no_proxy: Some("localhost,127.0.0.1".to_string()),
        ..no_vars()
    });
    assert!(proxy.is_some(), "Should return Some when env vars set");

    let proxy = proxy.unwrap();
    assert_eq!(proxy.http.as_ref().unwrap(), "http://test-proxy:8080");
    assert_eq!(proxy.no_proxy.as_ref().unwrap(), "localhost,127.0.0.1");
}

#[test]
fn test_policy_config_default() {
    let config = PolicyConfig::default();
    assert_eq!(config.default, PolicyDecisionConfig::Allow);
    assert!(config.servers.is_empty());
    assert!(config.tools.is_empty());
}

#[test]
fn test_policy_decision_config_serde() {
    let decisions = vec![
        (PolicyDecisionConfig::Allow, "allow"),
        (PolicyDecisionConfig::Deny, "deny"),
    ];

    for (decision, expected) in decisions {
        let serialized = decision.to_wire();
        assert_eq!(serialized, PolicyWire::Word(expected.to_string()));

        let deserialized = PolicyDecisionConfig::from_wire(&serialized).unwrap();
        assert_eq!(deserialized, decision);
    }

    let deny_with_reason = PolicyDecisionConfig::DenyWithReason("Not allowed".to_string());
    let serialized = deny_with_reason.to_wire();
    assert_eq!(
        serialized,
        PolicyWire::Entry {
            key: "deny_with_reason".to_string(),
            reason: "Not allowed".to_string(),
        }
    );
}

#[test]
fn test_builtin_tool_type_response_format() {
    assert_eq!(
        BuiltinToolType::WebSearchPreview.response_format(),
        ResponseFormatConfig::WebSearchCall
    );
    assert_eq!(
        BuiltinToolType::CodeInterpreter.response_format(),
        ResponseFormatConfig::CodeInterpreterCall
    );
    assert_eq!(
        BuiltinToolType::FileSearch.response_format(),
        ResponseFormatConfig::FileSearchCall
    );
}

#[test]
fn test_validate_valid_config_no_builtin() {
    let config = sse_server("test", "http://localhost:3000/sse");

    assert!(config.validate().is_ok());
}

#[test]
fn test_validate_valid_config_with_builtin() {
    let config = McpServerConfig {
        builtin_type: Some(BuiltinToolType::WebSearchPreview),
        builtin_tool_name: Some("brave_web_search".to_string()),
        ..sse_server("brave", "http://localhost:3000/sse")
    };

    assert!(config.validate().is_ok());
}

#[test]
fn test_validate_missing_builtin_tool_name() {
    let config = McpServerConfig {
        builtin_type: Some(BuiltinToolType::WebSearchPreview),
        builtin_tool_name: None,
        ..sse_server("brave", "http://localhost:3000/sse")
    };

    let err = config.validate().unwrap_err();
    assert!(matches!(
        err,
        ConfigValidationError::MissingBuiltinToolName { .. }
    ));
    assert!(err.to_string().contains("brave"));
    assert!(err.to_string().contains("builtin_tool_name is missing"));
}

#[test]
fn test_validate_missing_builtin_type() {
    let config = McpServerConfig {
        builtin_type: None,
        builtin_tool_name: Some("brave_web_search".to_string()),
        ..sse_server("brave", "http://localhost:3000/sse")
    };

    let err = config.validate().unwrap_err();
    assert!(matches!(
        err,
        ConfigValidationError::MissingBuiltinType { .. }
    ));
    assert!(err.to_string().contains("brave"));
    assert!(err.to_string().contains("builtin_type is missing"));
}

#[test]
fn test_mcp_config_validate_no_duplicates() {
    let config = McpConfig {
        servers: vec![
            McpServerConfig {
                builtin_type: Some(BuiltinToolType::WebSearchPreview),
                builtin_tool_name: Some("search".to_string()),
                ..sse_server("brave", "http://localhost:3000/sse")
            },
            McpServerConfig {
                builtin_type: Some(BuiltinToolType::CodeInterpreter),
                builtin_tool_name: Some("execute".to_string()),
                ..sse_server("code-runner", "http://localhost:3001/sse")
            },
        ],
        ..Default::default()
    };

    assert!(config.validate().is_ok());
}

#[test]
fn test_mcp_config_validate_duplicate_builtin_type() {
    let config = McpConfig {
        servers: vec![
            McpServerConfig {
                builtin_type: Some(BuiltinToolType::WebSearchPreview),
                builtin_tool_name: Some("search1".to_string()),
                ..sse_server("brave1", "http://localhost:3000/sse")
            },
            McpServerConfig {
                builtin_type: Some(BuiltinToolType::WebSearchPreview),
                builtin_tool_name: Some("search2".to_string()),
                ..sse_server("brave2", "http://localhost:3001/sse")
            },
        ],
        ..Default::default()
    };

    let err = config.validate().unwrap_err();
    assert!(matches!(
        err,
        ConfigValidationError::DuplicateBuiltinType { .. }
    ));
    assert!(err.to_string().contains("brave1"));
    assert!(err.to_string().contains("brave2"));
    assert!(err.to_string().contains("web_search_preview"));
}

#[test]
fn test_builtin_tool_type_display() {
    assert_eq!(
        BuiltinToolType::WebSearchPreview.to_string(),
        "web_search_preview"
    );
    assert_eq!(
        BuiltinToolType::CodeInterpreter.to_string(),
        "code_interpreter"
    );
    assert_eq!(BuiltinToolType::FileSearch.to_string(), "file_search");
}

#[test]
fn general_variables_stand_in_for_the_own_ones() {
    let proxy = McpProxyConfig::from_vars(ProxyVars {
        http_proxy: Some("http://general".to_string()),
        mcp_http_proxy: Some("http://own".to_string()),
        https_proxy: Some("https://general".to_string()),
        no_proxy: Some("example.com".to_string()),
        ..no_vars()
    })
    .unwrap();
    assert_eq!(proxy.http.as_deref(), Some("http://own"));
    assert_eq!(proxy.https.as_deref(), Some("https://general"));
    assert_eq!(proxy.no_proxy.as_deref(), Some("example.com"));
    assert_eq!(proxy.username, None);
    assert_eq!(proxy.password, None);
}

#[test]
fn exceptions_alone_make_no_proxy() {
    let proxy = McpProxyConfig::from_vars(ProxyVars {
        no_proxy: Some("localhost".to_string()),
        ..no_vars()
    });
    assert!(proxy.is_none());
}

#[test]
fn the_proxy_of_the_environment_comes_second() {
    let named = McpProxyConfig {
        http: Some("http://named".to_string()),
        https: None,
        no_proxy: None,
        username: None,
        password: None,
    };
    let found = McpProxyConfig {
        http: Some("http://found".to_string()),
        https: None,
        no_proxy: None,
        username: None,
        password: None,
    };
    let kept = McpConfig {
        proxy: Some(named),
        ..Default::default()
    }
    .with_env_proxy(Some(found.clone()));
    assert_eq!(kept.proxy.unwrap().http.as_deref(), Some("http://named"));
    let filled = McpConfig::default().with_env_proxy(Some(found));
    assert_eq!(filled.proxy.unwrap().http.as_deref(), Some("http://found"));
    assert!(McpConfig::from_env().is_none());
}

#[test]
fn validation_messages_are_exact() {
    let missing_name = ConfigValidationError::MissingBuiltinToolName {
        server: "s".to_string(),
    };
    assert_eq!(
        missing_name.to_string(),
        "server 's': builtin_type is set but builtin_tool_name is missing"
    );
    let missing_type = ConfigValidationError::MissingBuiltinType {
        server: "s".to_string(),
        tool_name: "t".to_string(),
    };
    assert_eq!(
        missing_type.to_string(),
        "server 's': builtin_tool_name 't' is set but builtin_type is missing"
    );
    let duplicate = ConfigValidationError::DuplicateBuiltinType {
        builtin_type: BuiltinToolType::FileSearch,
        first_server: "a".to_string(),
        second_server: "b".to_string(),
    };
    assert_eq!(
        duplicate.to_string(),
        "duplicate builtin_type 'file_search': configured on both 'a' and 'b'"
    );
}

#[test]
fn validation_stops_at_the_first_server_that_is_wrong() {
    let config = McpConfig {
        servers: vec![
            McpServerConfig {
                builtin_type: Some(BuiltinToolType::FileSearch),
                ..sse_server("first", "http://a")
            },
            McpServerConfig {
                builtin_tool_name: Some("t".to_string()),
                ..sse_server("second", "http://b")
            },
        ],
        ..Default::default()
    };
    assert_eq!(
        config.validate(),
        Err(ConfigValidationError::MissingBuiltinToolName {
            server: "first".to_string()
        })
    );
}

#[test]
fn unknown_decision_words_are_refused() {
    let word = PolicyWire::Word("maybe".to_string());
    assert!(PolicyDecisionConfig::from_wire(&word).is_none());
    let entry = PolicyWire::Entry {
        key: "deny".to_string(),
        reason: "r".to_string(),
    };
    assert!(PolicyDecisionConfig::from_wire(&entry).is_none());
}

#[test]
fn a_reason_survives_the_wire() {
    let decision = PolicyDecisionConfig::DenyWithReason("too dangerous".to_string());
    let back = PolicyDecisionConfig::from_wire(&decision.to_wire());
    assert_eq!(back, Some(decision));
}

#[test]
fn redaction_hides_token_and_headers() {
    let transport = McpTransport::Sse {
        url: "http://x".to_string(),
        token: Some("secret".to_string()),
        headers: vec![
            ("a".to_string(), "1".to_string()),
            ("b".to_string(), "2".to_string()),
        ],
    };
    match transport.redacted() {
        RedactedTransport::Sse { url, token, headers } => {
            assert_eq!(url, "http://x");
            assert_eq!(token.as_deref(), Some("****"));
            assert_eq!(headers, "2 headers");
        }
        _ => panic!("another transport"),
    }
    let transport = McpTransport::Streamable {
        url: "http://y".to_string(),
        token: None,
        headers: Vec::new(),
    };
    match transport.redacted() {
        RedactedTransport::Streamable { url, token, headers } => {
            assert_eq!(url, "http://y");
            assert_eq!(token, None);
            assert_eq!(headers, "0 headers");
        }
        _ => panic!("another transport"),
    }
    let transport = McpTransport::Stdio {
        command: "run".to_string(),
        args: vec!["--fast".to_string()],
        envs: vec![("K".to_string(), "V".to_string())],
    };
    match transport.redacted() {
        RedactedTransport::Stdio { command, args, envs } => {
            assert_eq!(command, "run");
            assert_eq!(args, vec!["--fast".to_string()]);
            assert_eq!(envs, vec![("K".to_string(), "V".to_string())]);
        }
        _ => panic!("another transport"),
    }
}

#[test]
fn remaining_defaults() {
    let tool = ToolConfig::default();
    assert!(tool.alias.is_none());
    assert_eq!(tool.response_format, ResponseFormatConfig::Passthrough);
    assert!(tool.arg_mapping.is_none());
    let server = ServerPolicyConfig::default();
    assert_eq!(server.trust_level, TrustLevelConfig::Standard);
    assert_eq!(server.default, PolicyDecisionConfig::Allow);
    let config = McpConfig::default();
    assert!(config.servers.is_empty());
    assert!(config.warmup.is_empty());
    assert!(config.proxy.is_none());
    assert_eq!(config.pool.max_connections, 100);
}

use std::collections::hash_map::DefaultHasher;
use std::hash::{Hash, Hasher};

use mcp_gateway::config::{McpProxyConfig, McpServerConfig, McpTransport};
use mcp_gateway::pool::{McpConnectionPool, PoolKey};

fn server(transport: McpTransport) -> McpServerConfig {
    McpServerConfig {
        name: "test".to_string(),
        transport,
        proxy: None,
        required: false,
        tools: None,
        builtin_type: None,
        builtin_tool_name: None,
        internal: false,
    }
}

fn streamable(url: &str, token: Option<&str>) -> McpServerConfig {
    server(McpTransport::Streamable {
        url: url.to_string(),
        token: token.map(|t| t.to_string()),
        headers: Vec::new(),
    })
}

fn sse(url: &str, headers: Vec<(&str, &str)>) -> McpServerConfig {
    server(McpTransport::Sse {
        url: url.to_string(),
        token: None,
        headers: headers
            .into_iter()
            .map(|(k, v)| (k.to_string(), v.to_string()))
            .collect(),
    })
}

fn key(url: &str) -> PoolKey {
    PoolKey::new(url.to_string(), 0, None)
}

#[test]
fn test_pool_creation() {
    let pool = McpConnectionPool::new(None);
    assert_eq!(pool.len(), 0);
    assert!(pool.is_empty());
}

#[test]
fn test_pool_stats() {
    let pool = McpConnectionPool::with_capacity(10, None);

    let stats = pool.stats();
    assert_eq!(stats.total_connections, 0);
    assert_eq!(stats.capacity, 10);
}

#[test]
fn test_pool_clear() {
    let mut pool = McpConnectionPool::new(None);
    assert_eq!(pool.len(), 0);
    pool.clear();
    assert!(pool.is_empty());
}

#[test]
fn test_pool_key_from_config() {
    // No token
    let config = streamable("http://localhost:3000", None);
    let key = PoolKey::from_config(&config, None);
    assert_eq!(key.url, "http://localhost:3000");
    assert_eq!(key.auth_hash, 0);
    assert_eq!(key.tenant_id, None);

    // With token
    let config_with_token = streamable("http://localhost:3000", Some("secret-token"));
    let key_with_token = PoolKey::from_config(&config_with_token, None);
    assert_eq!(key_with_token.url, "http://localhost:3000");
    assert_ne!(key_with_token.auth_hash, 0);

    // With tenant
    let key_with_tenant = PoolKey::from_config(&config, Some("tenant-123".to_string()));
    assert_eq!(key_with_tenant.tenant_id, Some("tenant-123".to_string()));
}

#[test]
fn test_pool_key_different_tokens() {
    let key1 = PoolKey::from_config(&streamable("http://localhost:3000", Some("token-a")), None);
    let key2 = PoolKey::from_config(&streamable("http://localhost:3000", Some("token-b")), None);

    // Same URL but different tokens = different keys
    assert_eq!(key1.url, key2.url);
    assert_ne!(key1.auth_hash, key2.auth_hash);
    assert_ne!(key1, key2);
}

#[test]
fn test_pool_key_with_headers() {
    let key1 = PoolKey::from_config(
        &sse("http://localhost:3000", vec![("X-API-Key", "key-1")]),
        None,
    );
    let key2 = PoolKey::from_config(
        &sse("http://localhost:3000", vec![("X-API-Key", "key-2")]),
        None,
    );

    // Same URL but different headers = different keys
    assert_eq!(key1.url, key2.url);
    assert_ne!(key1.auth_hash, key2.auth_hash);
    assert_ne!(key1, key2);
}

#[test]
fn test_pool_with_global_proxy() {
    let proxy = McpProxyConfig {
        http: Some("http://proxy.example.com:8080".to_string()),
        https: None,
        no_proxy: Some("localhost,127.0.0.1".to_string()),
        username: None,
        password: None,
    };

    let pool = McpConnectionPool::with_full_config(100, Some(proxy.clone()));

    assert!(pool.global_proxy().is_some());
    let stored_proxy = pool.global_proxy().as_ref().unwrap();
    assert_eq!(
        stored_proxy.http.as_ref().unwrap(),
        "http://proxy.example.com:8080"
    );
    assert_eq!(
        stored_proxy.no_proxy.as_ref().unwrap(),
        "localhost,127.0.0.1"
    );
}

#[test]
fn test_pool_proxy_from_env() {
    let pool = McpConnectionPool::new(None);
    assert!(pool.global_proxy().is_some() || pool.global_proxy().is_none());
    assert!(pool.global_proxy().is_none());

    let proxy = McpProxyConfig {
        http: Some("http://env".to_string()),
        https: None,
        no_proxy: None,
        username: None,
        password: None,
    };
    let pool = McpConnectionPool::new(Some(proxy));
    assert_eq!(
        pool.global_proxy().as_ref().unwrap().http.as_deref(),
        Some("http://env")
    );
}

#[test]
fn the_order_of_headers_does_not_matter() {
    let a = PoolKey::from_config(&sse("http://x", vec![("A", "1"), ("B", "2")]), None);
    let b = PoolKey::from_config(&sse("http://x", vec![("B", "2"), ("A", "1")]), None);
    assert_eq!(a, b);
    assert_ne!(a.auth_hash, 0);
}

#[test]
fn a_token_is_hashed_as_the_standard_hasher_does() {
    let mut hasher = DefaultHasher::new();
    "secret-token".hash(&mut hasher);
    let expected = hasher.finish();
    assert_eq!(
        PoolKey::hash_auth(&Some("secret-token".to_string()), &Vec::new()),
        expected
    );

    let mut hasher = DefaultHasher::new();
    "t".hash(&mut hasher);
    "A".hash(&mut hasher);
    "1".hash(&mut hasher);
    "B".hash(&mut hasher);
    "2".hash(&mut hasher);
    let expected = hasher.finish();
    let headers = vec![
        ("B".to_string(), "2".to_string()),
        ("A".to_string(), "1".to_string()),
    ];
    assert_eq!(PoolKey::hash_auth(&Some("t".to_string()), &headers), expected);
    assert_eq!(PoolKey::hash_auth(&None, &Vec::new()), 0);
}

#[test]
fn local_programs_are_keyed_by_their_command() {
    let config = server(McpTransport::Stdio {
        command: "tool".to_string(),
        args: vec!["a".to_string(), "b".to_string()],
        envs: Vec::new(),
    });
    let key = PoolKey::from_config(&config, None);
    assert_eq!(key.url(), "tool:a b");
    assert_eq!(key.auth_hash, 0);
}

#[test]
fn tenants_do_not_share_connections() {
    let config = streamable("http://x", None);
    let a = PoolKey::from_config(&config, Some("a".to_string()));
    let b = PoolKey::from_config(&config, Some("b".to_string()));
    let mut pool = McpConnectionPool::new(None);
    assert!(pool.insert(&a, 1).is_none());
    assert_eq!(pool.get(&b), None);
    assert_eq!(pool.get(&a), Some(1));
}

#[test]
fn the_least_recently_used_connection_leaves() {
    let mut pool = McpConnectionPool::with_capacity(2, None);
    assert!(pool.insert(&key("a"), 1).is_none());
    assert!(pool.insert(&key("b"), 2).is_none());
    assert_eq!(pool.get(&key("a")), Some(1));
    let gone = pool.insert(&key("c"), 3);
    assert_eq!(gone, Some(key("b")));
    assert_eq!(pool.len(), 2);
    assert_eq!(pool.get(&key("b")), None);
    assert_eq!(pool.get(&key("a")), Some(1));
    assert_eq!(pool.get(&key("c")), Some(3));
    let stats = pool.stats();
    assert_eq!(stats.total_connections, 2);
    assert_eq!(stats.capacity, 2);
}

#[test]
fn a_second_connection_replaces_the_first() {
    let mut pool = McpConnectionPool::with_capacity(2, None);
    assert!(pool.insert(&key("a"), 1).is_none());
    assert_eq!(pool.insert(&key("a"), 5), Some(key("a")));
    assert_eq!(pool.len(), 1);
    assert_eq!(pool.get(&key("a")), Some(5));
}

#[test]
fn looking_for_an_address_finds_the_most_recent_connection() {
    let mut pool = McpConnectionPool::with_capacity(4, None);
    let plain = PoolKey::new("u".to_string(), 0, None);
    let other = PoolKey::new("u".to_string(), 7, None);
    pool.insert(&plain, 1);
    pool.insert(&other, 2);
    pool.insert(&key("v"), 3);
    assert_eq!(pool.get_by_url("u"), Some(2));
    assert!(pool.contains_url("u"));
    assert!(!pool.contains_url("w"));
    assert_eq!(pool.get_by_url("w"), None);
    assert!(pool.contains(&plain));
    assert!(!pool.contains(&key("w")));
    let keys = pool.list_keys();
    assert_eq!(keys.len(), 3);
    assert!(keys.contains(&plain) && keys.contains(&other) && keys.contains(&key("v")));
}

#[test]
fn clearing_a_pool_empties_it() {
    let mut pool = McpConnectionPool::with_capacity(4, None);
    pool.insert(&key("a"), 1);
    pool.insert(&key("b"), 2);
    assert_eq!(pool.len(), 2);
    pool.clear();
    assert!(pool.is_empty());
    assert_eq!(pool.get(&key("a")), None);
    assert!(pool.list_keys().is_empty());
}

#[test]
fn a_pool_without_a_size_has_the_standard_one() {
    let pool = McpConnectionPool::new(None);
    assert_eq!(pool.stats().capacity, 200);
}

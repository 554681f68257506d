//! Laws of the configuration, of connections and of the pool.

use std::hash::DefaultHasher;

use vstd::prelude::*;
use vstd::std_specs::hash::DefaultHasherAdditionalSpecFns;

use crate::assoc::{lemma_position, position};
use crate::config::{
    decision_wire, error_at, error_text, first_error, first_set, pair_views, proxy_from, redaction,
    server_error, type_owner, wire_decision, BuiltinToolType, ConfigValidationError, DecisionView,
    McpProxyConfig, McpServerConfig, McpTransport, ProxyVars, RedactedView, WireView,
};
use crate::error::{ErrorView, McpError};
use crate::http::{
    client_headers, effective_proxy, is_header_name, is_header_value, is_plan_for, lower_name,
    pair_keys, plan_error, put_header, request_headers, step_error, ConnectPlan, ConnectStep,
    HttpClientPlan,
};
use crate::order::{insert_pair, pair_list, sort_pairs, text_le, Pair};
use crate::pool::{
    auth_hash, config_key, displaced, header_writes, key_index, keys_distinct, pooled, pushed,
    text_hash_writes, touched, KeyView, McpConnectionPool, PoolEntries,
};
use crate::text::{decimal, joined, opt_view, views};

verus! {

broadcast use vstd::string::group_string_axioms;

// ---------------------------------------------------------------------------
// Configuration
// ---------------------------------------------------------------------------

/// How a decision of the policy is written, and what is read for it.
pub proof fn law_written_decisions(w: WireView, reason: Seq<char>)
    ensures
        decision_wire(DecisionView::Allow) == WireView::Word("allow"@),
        decision_wire(DecisionView::Deny) == WireView::Word("deny"@),
        decision_wire(DecisionView::DenyWithReason(reason)) == WireView::Entry(
            "deny_with_reason"@,
            reason,
        ),
        wire_decision(w) matches Some(d) ==> decision_wire(d) == w,
        wire_decision(w) is None ==> w != WireView::Word("allow"@) && w != WireView::Word("deny"@)
            && (w matches WireView::Entry(key, r) ==> key != "deny_with_reason"@),
{
}

/// The name of a built-in type, and the format of its results.
pub proof fn law_builtin_types(t: BuiltinToolType)
    ensures
        t is WebSearchPreview ==> t.name() == "web_search_preview"@ && t.format() is WebSearchCall,
        t is CodeInterpreter ==> t.name() == "code_interpreter"@
            && t.format() is CodeInterpreterCall,
        t is FileSearch ==> t.name() == "file_search"@ && t.format() is FileSearchCall,
{
}

/// A server names a built-in type and its tool both or not at all.
pub proof fn law_server_configuration(server: McpServerConfig)
    ensures
        server.builtin_type is Some == (server.builtin_tool_name is Some) ==> server_error(
            server,
        ) is None,
        server.builtin_type is Some && server.builtin_tool_name is None ==> server_error(server)
            == Some(ConfigValidationError::MissingBuiltinToolName { server: server.name }),
        server.builtin_type is None ==> (server.builtin_tool_name matches Some(tool_name) ==> server_error(
            server,
        ) == Some(ConfigValidationError::MissingBuiltinType { server: server.name, tool_name })),
{
}

/// The first server that is wrong is the one that is reported: what is wrong with
/// itself, or else that an earlier server has its built-in type.
pub proof fn law_first_wrong_server(servers: Seq<McpServerConfig>, from: int, i: int, k: int)
    requires
        0 <= from <= servers.len(),
    ensures
        from <= i < servers.len() && error_at(servers, i) is Some && (forall|j: int|
            from <= j < i ==> error_at(servers, j) is None) ==> first_error(servers, from) == Err::<
            (),
            ConfigValidationError,
        >(error_at(servers, i)->0),
        (forall|j: int| from <= j < servers.len() ==> error_at(servers, j) is None) ==> first_error(
            servers,
            from,
        ) is Ok,
        0 <= i < servers.len() ==> {
            &&& server_error(servers[i]) matches Some(e) ==> error_at(servers, i) == Some(e)
            &&& server_error(servers[i]) is None && servers[i].builtin_type is None ==> error_at(
                servers,
                i,
            ) is None
            &&& server_error(servers[i]) is None ==> (servers[i].builtin_type matches Some(t) ==> 0
                <= k < i && servers[k].builtin_type == Some(t) && (forall|j: int|
                0 <= j < k ==> (#[trigger] servers[j]).builtin_type != Some(t)) ==> error_at(
                servers,
                i,
            ) == Some(
                ConfigValidationError::DuplicateBuiltinType {
                    builtin_type: t,
                    first_server: servers[k].name,
                    second_server: servers[i].name,
                },
            ))
        },
    decreases servers.len() - from,
{
    if 0 <= i < servers.len() {
        if let Some(t) = servers[i].builtin_type {
            lemma_type_owner(servers, t, 0, k);
        }
    }
    if from < servers.len() {
        law_first_wrong_server(servers, from + 1, i, k);
        assert(error_at(servers, from) == error_at(servers, from));
    }
}

proof fn lemma_type_owner(servers: Seq<McpServerConfig>, t: BuiltinToolType, from: int, k: int)
    requires
        0 <= from <= servers.len(),
    ensures
        from <= k < servers.len() && servers[k].builtin_type == Some(t) && (forall|j: int|
            from <= j < k ==> (#[trigger] servers[j]).builtin_type != Some(t)) ==> type_owner(
            servers,
            t,
            from,
        ) == k,
    decreases servers.len() - from,
{
    if from < servers.len() {
        lemma_type_owner(servers, t, from + 1, k);
        assert(servers[from] == servers[from]);
    }
}

/// What is said of a wrong configuration names the servers that it is about.
pub proof fn law_message_of_a_wrong_configuration(e: ConfigValidationError)
    ensures
        e matches ConfigValidationError::MissingBuiltinToolName { server } ==> error_text(e)
            == "server '"@ + server@ + "': builtin_type is set but builtin_tool_name is missing"@,
        e matches ConfigValidationError::MissingBuiltinType { server, tool_name } ==> error_text(e)
            == "server '"@ + server@ + "': builtin_tool_name '"@ + tool_name@
            + "' is set but builtin_type is missing"@,
        e matches ConfigValidationError::DuplicateBuiltinType {
            builtin_type,
            first_server,
            second_server,
        } ==> error_text(e) == "duplicate builtin_type '"@ + builtin_type.name()
            + "': configured on both '"@ + first_server@ + "' and '"@ + second_server@ + "'"@,
{
}

/// Of two settings the first one counts where it is there.
pub proof fn law_first_setting_counts(a: Option<String>, b: Option<String>)
    ensures
        a is Some ==> first_set(a, b) == a,
        a is None ==> first_set(a, b) == b,
{
}

/// The variables of the gateway count before the common ones, and a proxy is there
/// where one of them names its address. Credentials do not come from variables.
pub proof fn law_proxy_of_the_environment(vars: ProxyVars)
    ensures
        ({
            let http = if vars.mcp_http_proxy is Some {
                vars.mcp_http_proxy
            } else {
                vars.http_proxy
            };
            let https = if vars.mcp_https_proxy is Some {
                vars.mcp_https_proxy
            } else {
                vars.https_proxy
            };
            &&& http is None && https is None <==> proxy_from(vars) is None
            &&& proxy_from(vars) matches Some(p) ==> p.http == http && p.https == https
                && p.no_proxy == (if vars.mcp_no_proxy is Some {
                vars.mcp_no_proxy
            } else {
                vars.no_proxy
            }) && p.username is None && p.password is None
        }),
{
}

/// What is shown of a transport: its address, that there is a credential, and how
/// many headers there are; of a local program all.
pub proof fn law_what_is_shown_of_a_transport(t: McpTransport)
    ensures
        t matches McpTransport::Sse { url, token, headers } ==> (
        redaction(t) matches RedactedView::Sse(u, shown, count) && u == url@ && (token is Some
            ==> shown == Some("****"@)) && (token is None ==> shown is None) && count == decimal(
            headers@.len(),
        ) + " headers"@),
        t matches McpTransport::Streamable { url, token, headers } ==> (
        redaction(t) matches RedactedView::Streamable(u, shown, count) && u == url@ && (
        token is Some ==> shown == Some("****"@)) && (token is None ==> shown is None) && count
            == decimal(headers@.len()) + " headers"@),
        t matches McpTransport::Stdio { command, args, envs } ==> (
        redaction(t) matches RedactedView::Stdio(c, a, e) && c == command@ && a == views(args@)
            && e == pair_views(envs@)),
{
}

// ---------------------------------------------------------------------------
// Connections
// ---------------------------------------------------------------------------

/// A header that is put in holds its value, in place of the one of its name; the
/// others stay.
pub proof fn law_header_is_put(headers: Seq<Pair>, name: Seq<char>, value: Seq<char>, x: Pair)
    ensures
        ({
            let after = put_header(headers, name, value);
            &&& after.contains((name, value))
            &&& x.0 != name ==> (after.contains(x) <==> headers.contains(x))
            &&& after.len() == (if pair_keys(headers).contains(name) {
                headers.len()
            } else {
                headers.len() + 1
            })
        }),
{
    let keys = pair_keys(headers);
    lemma_position(keys, name);
    let at = position(keys, name);
    let after = put_header(headers, name, value);
    assert(after[at] == (name, value));
    if x.0 != name {
        if after.contains(x) {
            let j = choose|j: int| 0 <= j < after.len() && after[j] == x;
            assert(j != at);
            assert(headers[j] == x);
        }
        if headers.contains(x) {
            let j = choose|j: int| 0 <= j < headers.len() && headers[j] == x;
            assert(keys[j] == x.0);
            assert(j != at);
            assert(after[j] == x);
        }
    }
}

/// A token is sent as a bearer credential. Then the headers of the configuration
/// are put in, one after the other, by their names in lower case; the first one
/// that is refused is reported.
pub proof fn law_headers_of_a_connection(
    token: Option<Seq<char>>,
    custom: Seq<Pair>,
    header: Pair,
)
    ensures
        token is None ==> request_headers(token, Seq::empty()) == Ok::<Seq<Pair>, ErrorView>(
            Seq::empty(),
        ),
        token matches Some(t) ==> is_header_value("Bearer "@ + t) ==> request_headers(
            token,
            Seq::empty(),
        ) == Ok::<Seq<Pair>, ErrorView>(seq![("authorization"@, "Bearer "@ + t)]),
        token matches Some(t) ==> !is_header_value("Bearer "@ + t) ==> request_headers(
            token,
            custom,
        ) == Err::<Seq<Pair>, ErrorView>(
            ErrorView::Transport("auth token: "@ + "failed to parse header value"@),
        ),
        request_headers(token, custom.push(header)) == (match request_headers(token, custom) {
            Err(e) => Err(e),
            Ok(headers) => if !is_header_name(header.0) {
                Err(ErrorView::Transport("header name: "@ + "invalid HTTP header name"@))
            } else if !is_header_value(header.1) {
                Err(ErrorView::Transport("header value: "@ + "failed to parse header value"@))
            } else {
                Ok(put_header(headers, lower_name(header.0), header.1))
            },
        }),
{
    assert(custom.push(header).drop_last() =~= custom);
}

/// A server's own proxy counts before that of all servers.
pub proof fn law_proxy_of_a_server(server: Option<McpProxyConfig>, global: Option<McpProxyConfig>)
    ensures
        server is Some ==> effective_proxy(server, global) == server,
        server is None ==> effective_proxy(server, global) == global,
{
}

/// A proxy that cannot be set up is reported before headers that are refused.
pub proof fn law_proxy_is_tried_first(
    proxy: Option<McpProxyConfig>,
    outcome: Result<(), McpError>,
    token: Option<Seq<char>>,
    custom: Seq<Pair>,
)
    ensures
        proxy is Some ==> (outcome matches Err(e) ==> client_headers(proxy, outcome, token, custom)
            == Err::<Seq<Pair>, ErrorView>(e@)),
        proxy is None || outcome is Ok ==> client_headers(proxy, outcome, token, custom)
            == request_headers(token, custom),
{
}

/// A server is connected as its transport says: a local program by its command,
/// the others at their address, through the proxy that counts, with their headers
/// and within ten seconds.
pub proof fn law_plan_of_a_connection(
    plan: ConnectPlan<'_>,
    server: McpServerConfig,
    global: Option<McpProxyConfig>,
)
    requires
        is_plan_for(plan, server, global),
    ensures
        server.transport matches McpTransport::Stdio { command, args, envs } ==> (
        plan matches ConnectPlan::Stdio { command: c, args: a, envs: e } && *c == command && *a
            == args && *e == envs),
        server.transport matches McpTransport::Sse { url, token, headers } ==> (
        plan matches ConnectPlan::Sse { url: u, client } && *u == url && is_client_for(
            client,
            server,
            global,
            opt_view(token),
            pair_list(headers@),
        )),
        server.transport matches McpTransport::Streamable { url, token, headers } ==> (
        plan matches ConnectPlan::Streamable { url: u, client } && *u == url && is_client_for(
            client,
            server,
            global,
            opt_view(token),
            pair_list(headers@),
        )),
{
}

/// Whether a client is built for the proxy, token and headers of a server.
pub open spec fn is_client_for(
    client: HttpClientPlan<'_>,
    server: McpServerConfig,
    global: Option<McpProxyConfig>,
    token: Option<Seq<char>>,
    custom: Seq<Pair>,
) -> bool {
    let proxy = if server.proxy is Some {
        server.proxy
    } else {
        global
    };
    &&& client.connect_timeout_secs == 10
    &&& proxy is None ==> client.proxy is None
    &&& proxy is Some ==> client.proxy is Some && *(client.proxy->0) == proxy->0
    &&& request_headers(token, custom) matches Ok(headers) && (if headers.len() == 0 {
        client.default_headers is None
    } else {
        client.default_headers is Some && pair_list(client.default_headers->0@) == headers
    })
}

/// What stands in the way of a connection before it is tried.
pub proof fn law_obstacle_to_a_connection(
    server: McpServerConfig,
    global: Option<McpProxyConfig>,
    outcome: Result<(), McpError>,
)
    ensures
        server.transport is Stdio ==> plan_error(server, global, outcome) is None,
        !(server.transport is Stdio) && (server.proxy is Some || global is Some) ==> (
        outcome matches Err(e) ==> plan_error(server, global, outcome) == Some(e@)),
        server.transport matches McpTransport::Sse { url, token, headers } ==> outcome is Ok
            ==> plan_error(server, global, outcome) == (match request_headers(
            opt_view(token),
            pair_list(headers@),
        ) {
            Ok(_) => None,
            Err(e) => Some(e),
        }),
        server.transport matches McpTransport::Streamable { url, token, headers } ==> outcome is Ok
            ==> plan_error(server, global, outcome) == (match request_headers(
            opt_view(token),
            pair_list(headers@),
        ) {
            Ok(_) => None,
            Err(e) => Some(e),
        }),
{
}

/// The error of a failed attempt names the step and why it failed.
pub proof fn law_failed_attempt(step: ConnectStep, detail: Seq<char>)
    ensures
        step is HttpClient ==> step_error(step, detail) == ErrorView::Transport(
            "build HTTP client: "@ + detail,
        ),
        step is StdioTransport ==> step_error(step, detail) == ErrorView::Transport(
            "create stdio transport: "@ + detail,
        ),
        step is StdioHandshake ==> step_error(step, detail) == ErrorView::ConnectionFailed(
            "initialize stdio client: "@ + detail,
        ),
        step is SseTransport ==> step_error(step, detail) == ErrorView::Transport(
            "create SSE transport: "@ + detail,
        ),
        step is SseHandshake ==> step_error(step, detail) == ErrorView::ConnectionFailed(
            "initialize SSE client: "@ + detail,
        ),
        step is StreamableHandshake ==> step_error(step, detail) == ErrorView::ConnectionFailed(
            "initialize streamable client: "@ + detail,
        ),
        step is DynamicSseHandshake ==> step_error(step, detail) == ErrorView::ConnectionFailed(
            "SSE: "@ + detail,
        ),
        step is DynamicStreamableHandshake ==> step_error(step, detail)
            == ErrorView::ConnectionFailed("streamable: "@ + detail),
{
}

// ---------------------------------------------------------------------------
// The pool
// ---------------------------------------------------------------------------

/// The key of a pooled connection has the address, the hash of the credentials and
/// the tenant. Without credentials the hash is zero, and so it is for a local
/// program, whose key has its command line.
pub proof fn law_key_of_a_connection(transport: McpTransport, tenant: Option<Seq<char>>)
    ensures
        config_key(transport, tenant).2 == tenant,
        transport matches McpTransport::Sse { url, token, headers } ==> config_key(
            transport,
            tenant,
        ).0 == url@ && config_key(transport, tenant).1 == auth_hash(
            opt_view(token),
            pair_list(headers@),
        ),
        transport matches McpTransport::Streamable { url, token, headers } ==> config_key(
            transport,
            tenant,
        ).0 == url@ && config_key(transport, tenant).1 == auth_hash(
            opt_view(token),
            pair_list(headers@),
        ),
        transport matches McpTransport::Stdio { command, args, envs } ==> config_key(
            transport,
            tenant,
        ).0 == command@ + ":"@ + joined(views(args@), " "@) && config_key(transport, tenant).1 == 0,
        auth_hash(None, Seq::empty()) == 0,
{
}

/// The hash of credentials is that of the token, where there is one, and of all
/// names and values of the headers behind it, in the order of their names.
pub proof fn law_hash_of_credentials(
    token: Option<Seq<char>>,
    headers: Seq<Pair>,
    sorted: Seq<Pair>,
    header: Pair,
)
    ensures
        token is Some || headers.len() > 0 ==> auth_hash(token, headers)
            == DefaultHasher::spec_finish(
            (match token {
                Some(t) => text_hash_writes(t),
                None => Seq::empty(),
            }) + header_writes(sort_pairs(headers)),
        ),
        header_writes(Seq::empty()).len() == 0,
        header_writes(sorted.push(header)) == header_writes(sorted) + text_hash_writes(header.0)
            + text_hash_writes(header.1),
{
    assert(sorted.push(header).drop_last() =~= sorted);
}

/// The pool finds a connection by its whole key.
pub proof fn law_pooled_connection_is_found(entries: PoolEntries, key: KeyView, i: int)
    ensures
        pooled(entries, key) matches Some(client) ==> entries.contains((key, client)),
        0 <= i < entries.len() && entries[i].0 == key ==> pooled(entries, key) is Some,
        0 <= i < entries.len() && entries[i].0 == key && keys_distinct(entries) ==> pooled(
            entries,
            key,
        ) == Some(entries[i].1),
{
    lemma_pool_index(entries, key, 0);
    let at = key_index(entries, key, 0);
    if at < entries.len() {
        assert(entries[at] == (key, entries[at].1));
    }
}

proof fn lemma_pool_index(entries: PoolEntries, key: KeyView, from: int)
    requires
        0 <= from <= entries.len(),
    ensures
        from <= key_index(entries, key, from) <= entries.len(),
        key_index(entries, key, from) < entries.len() ==> entries[key_index(
            entries,
            key,
            from,
        )].0 == key,
        forall|j: int| from <= j < key_index(entries, key, from) ==> (#[trigger] entries[j]).0 != key,
    decreases entries.len() - from,
{
    if from < entries.len() && entries[from].0 != key {
        lemma_pool_index(entries, key, from + 1);
    }
}

/// A connection that is put in comes to the front. Only where the pool is full, and
/// the key is new, the one at the end, which was used least recently, gives way.
pub proof fn law_pool_is_bounded(entries: PoolEntries, capacity: nat, key: KeyView, client: u64)
    requires
        0 < capacity,
        entries.len() <= capacity,
    ensures
        ({
            let after = pushed(entries, capacity, key, client);
            let known = pooled(entries, key) is Some;
            &&& after.len() <= capacity
            &&& after[0] == (key, client)
            &&& !known && entries.len() < capacity ==> {
                &&& displaced(entries, capacity, key) is None
                &&& after == seq![(key, client)] + entries
            }
            &&& !known && entries.len() == capacity ==> {
                &&& displaced(entries, capacity, key) == Some(entries.last())
                &&& after == seq![(key, client)] + entries.drop_last()
            }
            &&& known ==> {
                &&& displaced(entries, capacity, key) == Some((key, pooled(entries, key)->0))
                &&& after.len() == entries.len()
            }
        }),
{
    lemma_pool_index(entries, key, 0);
}

/// Using a connection brings it to the front and changes no other.
pub proof fn law_used_connection_comes_first(entries: PoolEntries, key: KeyView, x: (KeyView, u64))
    ensures
        ({
            let after = touched(entries, key);
            &&& pooled(entries, key) matches Some(client) ==> after[0] == (key, client)
            &&& pooled(entries, key) is None ==> after == entries
            &&& after.len() == entries.len()
            &&& after.contains(x) <==> entries.contains(x)
        }),
{
    lemma_pool_index(entries, key, 0);
    let at = key_index(entries, key, 0);
    let after = touched(entries, key);
    if at < entries.len() {
        if entries.contains(x) {
            let j = choose|j: int| 0 <= j < entries.len() && entries[j] == x;
            if j == at {
                assert(after[0] == x);
            } else if j < at {
                assert(after[j + 1] == x);
            } else {
                assert(after[j] == x);
            }
        }
        if after.contains(x) {
            let j = choose|j: int| 0 <= j < after.len() && after[j] == x;
            if j == 0 {
                assert(entries[at] == x);
            } else if j <= at {
                assert(entries[j - 1] == x);
            } else {
                assert(entries[j] == x);
            }
        }
    }
}

/// By its address alone the connection that was used last is found.
pub proof fn law_connection_by_address(entries: PoolEntries, url: Seq<char>, from: int, i: int)
    requires
        0 <= from <= entries.len(),
    ensures
        from <= i < entries.len() && entries[i].0.0 == url && (forall|j: int|
            from <= j < i ==> (#[trigger] entries[j]).0.0 != url) ==> McpConnectionPool::url_index(
            entries,
            url,
            from,
        ) == i,
        (forall|j: int| from <= j < entries.len() ==> (#[trigger] entries[j]).0.0 != url)
            ==> McpConnectionPool::url_index(entries, url, from) == entries.len(),
    decreases entries.len() - from,
{
    if from < entries.len() {
        law_connection_by_address(entries, url, from + 1, i);
        assert(entries[from] == entries[from]);
    }
}

/// Sorting the headers keeps all of them and puts them in the order of their names.
pub proof fn law_sorted_headers(list: Seq<Pair>, i: int, j: int)
    ensures
        sort_pairs(list).to_multiset() == list.to_multiset(),
        sort_pairs(list).len() == list.len(),
        0 <= i < j < list.len() ==> text_le(sort_pairs(list)[i].0, sort_pairs(list)[j].0),
    decreases list.len(),
{
    broadcast use vstd::seq_lib::group_to_multiset_ensures;

    if list.len() > 0 {
        let rest = sort_pairs(list.drop_last());
        law_sorted_headers(list.drop_last(), i, j);
        assert forall|a: int, b: int| 0 <= a < b < rest.len() implies text_le(
            (#[trigger] rest[a]).0,
            (#[trigger] rest[b]).0,
        ) by {
            law_sorted_headers(list.drop_last(), a, b);
        }
        lemma_inserted(rest, list.last());
        assert(list.drop_last().push(list.last()) =~= list);
    }
}

proof fn lemma_inserted(sorted: Seq<Pair>, e: Pair)
    requires
        forall|a: int, b: int|
            0 <= a < b < sorted.len() ==> text_le((#[trigger] sorted[a]).0, (#[trigger] sorted[b]).0),
    ensures
        insert_pair(sorted, e).len() == sorted.len() + 1,
        insert_pair(sorted, e).to_multiset() == sorted.push(e).to_multiset(),
        forall|a: int|
            0 <= a < insert_pair(sorted, e).len() ==> (#[trigger] insert_pair(sorted, e)[a]) == e
                || sorted.contains(insert_pair(sorted, e)[a]),
        forall|a: int, b: int|
            0 <= a < b < insert_pair(sorted, e).len() ==> text_le(
                (#[trigger] insert_pair(sorted, e)[a]).0,
                (#[trigger] insert_pair(sorted, e)[b]).0,
            ),
    decreases sorted.len(),
{
    broadcast use vstd::seq_lib::group_to_multiset_ensures;

    if sorted.len() == 0 || text_le(sorted.last().0, e.0) {
        let out = sorted.push(e);
        assert forall|a: int, b: int| 0 <= a < b < out.len() implies text_le(
            (#[trigger] out[a]).0,
            (#[trigger] out[b]).0,
        ) by {
            if b == sorted.len() {
                if a < sorted.len() - 1 {
                    assert(text_le(sorted[a].0, sorted[sorted.len() - 1].0));
                    crate::order::lemma_text_le_transitive(sorted[a].0, sorted.last().0, e.0);
                }
            } else {
                assert(text_le(sorted[a].0, sorted[b].0));
            }
        }
    } else {
        let rest = sorted.drop_last();
        assert forall|a: int, b: int| 0 <= a < b < rest.len() implies text_le(
            (#[trigger] rest[a]).0,
            (#[trigger] rest[b]).0,
        ) by {
            assert(rest[a] == sorted[a] && rest[b] == sorted[b]);
        }
        lemma_inserted(rest, e);
        let inner = insert_pair(rest, e);
        let out = inner.push(sorted.last());
        assert(rest.push(sorted.last()) =~= sorted);
        crate::order::lemma_text_le_total(sorted.last().0, e.0);
        assert(out.to_multiset() =~= sorted.push(e).to_multiset());
        assert forall|a: int| 0 <= a < out.len() implies (#[trigger] out[a]) == e
            || sorted.contains(out[a]) by {
            if a < inner.len() {
                assert(out[a] == inner[a]);
                if inner[a] != e {
                    let k = choose|k: int| 0 <= k < rest.len() && rest[k] == inner[a];
                    assert(sorted[k] == out[a]);
                }
            } else {
                assert(sorted[sorted.len() - 1] == out[a]);
            }
        }
        assert forall|a: int, b: int| 0 <= a < b < out.len() implies text_le(
            (#[trigger] out[a]).0,
            (#[trigger] out[b]).0,
        ) by {
            if b < inner.len() {
                assert(text_le(inner[a].0, inner[b].0));
            } else {
                assert(out[a] == inner[a]);
                if inner[a] != e {
                    let k = choose|k: int| 0 <= k < rest.len() && rest[k] == inner[a];
                    assert(text_le(sorted[k].0, sorted[sorted.len() - 1].0));
                }
            }
        }
    }
}

} // verus!

//! Request headers of HTTP transports.

use reqwest::header::{HeaderName, HeaderValue};
use vstd::prelude::*;

use crate::assoc::{find_key, keys_of, position};
use crate::config::{McpProxyConfig, McpServerConfig, McpTransport};
use crate::error::{ErrorView, McpError};
use crate::order::{pair_list, Pair};
use crate::text::opt_view;

verus! {

broadcast use vstd::string::group_string_axioms;

/// The characters that a header name may hold.
pub open spec fn is_name_char(c: char) -> bool {
    let n = c as int;
    ||| 0x30 <= n <= 0x39
    ||| 0x41 <= n <= 0x5a
    ||| 0x61 <= n <= 0x7a
    ||| c == '!' || c == '#' || c == '$' || c == '%' || c == '&' || c == '\'' || c == '*'
    ||| c == '+' || c == '-' || c == '.' || c == '^' || c == '_' || c == '`' || c == '|' || c == '~'
}

/// The longest header name.
pub const MAX_HEADER_NAME_LEN: usize = 0xffff;

/// Whether a text is a header name.
pub open spec fn is_header_name(s: Seq<char>) -> bool {
    &&& 0 < s.len() <= MAX_HEADER_NAME_LEN
    &&& forall|i: int| 0 <= i < s.len() ==> is_name_char(#[trigger] s[i])
}

/// A header name in the form in which names are compared: in lower case.
pub open spec fn lower_name(s: Seq<char>) -> Seq<char> {
    s.map_values(
        |c: char|
            if 0x41 <= c as int <= 0x5a {
                (c as int + 32) as char
            } else {
                c
            },
    )
}

/// Whether a text can be a header value: no control characters but the tab.
pub open spec fn is_header_value(s: Seq<char>) -> bool {
    forall|i: int|
        0 <= i < s.len() ==> (#[trigger] s[i] as int >= 32 && s[i] as int != 127) || s[i] == '\t'
}

/// Reads a header name by `HeaderName::from_bytes`: a text of token characters
/// comes out in lower case, any other with the error's message.
#[verifier::external_body]
fn parse_header_name(text: &str) -> (r: Result<String, String>)
    ensures
        match r {
            Ok(name) => is_header_name(text@) && name@ == lower_name(text@),
            Err(e) => !is_header_name(text@) && e@ == "invalid HTTP header name"@,
        },
{
    match HeaderName::from_bytes(text.as_bytes()) {
        Ok(name) => Ok(name.as_str().to_string()),
        Err(e) => Err(e.to_string()),
    }
}

/// Reads a header value by `HeaderValue::from_str`: a text without control
/// characters other than the tab is taken as it is, any other comes out with
/// the error's message.
#[verifier::external_body]
fn parse_header_value(text: &str) -> (r: Result<String, String>)
    ensures
        match r {
            Ok(value) => is_header_value(text@) && value@ == text@,
            Err(e) => !is_header_value(text@) && e@ == "failed to parse header value"@,
        },
{
    match HeaderValue::from_str(text) {
        Ok(value) => Ok(String::from_utf8_lossy(value.as_bytes()).into_owned()),
        Err(e) => Err(e.to_string()),
    }
}

/// The first key of a pair.
pub open spec fn pair_keys(list: Seq<Pair>) -> Seq<Seq<char>> {
    list.map_values(|p: Pair| p.0)
}

/// The headers with `name` holding `value`, in place of what it held before.
pub open spec fn put_header(headers: Seq<Pair>, name: Seq<char>, value: Seq<char>) -> Seq<Pair> {
    let at = position(pair_keys(headers), name);
    if at < headers.len() {
        headers.update(at, (headers[at].0, value))
    } else {
        headers.push((name, value))
    }
}

/// The headers that a token asks for, or what is wrong with it.
pub open spec fn token_headers(token: Option<Seq<char>>) -> Result<Seq<Pair>, ErrorView> {
    match token {
        Some(t) => if is_header_value("Bearer "@ + t) {
            Ok(seq![("authorization"@, "Bearer "@ + t)])
        } else {
            Err(ErrorView::Transport("auth token: "@ + "failed to parse header value"@))
        },
        None => Ok(Seq::empty()),
    }
}

/// The headers after the custom ones were put in, in their order, or what is
/// wrong with the first one that is refused.
pub open spec fn with_custom(start: Seq<Pair>, custom: Seq<Pair>) -> Result<Seq<Pair>, ErrorView>
    decreases custom.len(),
{
    if custom.len() == 0 {
        Ok(start)
    } else {
        match with_custom(start, custom.drop_last()) {
            Err(e) => Err(e),
            Ok(headers) => {
                let p = custom.last();
                if !is_header_name(p.0) {
                    Err(ErrorView::Transport("header name: "@ + "invalid HTTP header name"@))
                } else if !is_header_value(p.1) {
                    Err(
                        ErrorView::Transport("header value: "@ + "failed to parse header value"@),
                    )
                } else {
                    Ok(put_header(headers, lower_name(p.0), p.1))
                }
            },
        }
    }
}

/// The request headers for a token and custom headers.
pub open spec fn request_headers(token: Option<Seq<char>>, custom: Seq<Pair>) -> Result<
    Seq<Pair>,
    ErrorView,
> {
    match token_headers(token) {
        Err(e) => Err(e),
        Ok(start) => with_custom(start, custom),
    }
}

/// An error of the transport, with the message `prefix` + `detail`.
fn transport_error(prefix: &str, detail: &str) -> (e: McpError)
    ensures
        e@ == ErrorView::Transport(prefix@ + detail@),
{
    let mut message: String = prefix.to_owned();
    message.append(detail);
    McpError::Transport(message)
}

/// An error of the handshake, with the message `prefix` + `detail`.
fn connection_error(prefix: &str, detail: &str) -> (e: McpError)
    ensures
        e@ == ErrorView::ConnectionFailed(prefix@ + detail@),
{
    let mut message: String = prefix.to_owned();
    message.append(detail);
    McpError::ConnectionFailed(message)
}

proof fn lemma_pair_keys(list: Seq<(String, String)>)
    ensures
        pair_keys(pair_list(list)) == keys_of(list),
{
    assert(pair_keys(pair_list(list)) =~= keys_of(list));
}

/// The request headers for a token and custom headers: the token as a bearer
/// credential, then the custom ones, where a later one takes the place of an
/// earlier one with its name.
pub fn build_request_headers(
    token: &Option<String>,
    custom_headers: &Vec<(String, String)>,
) -> (r: Result<Vec<(String, String)>, McpError>)
    ensures
        match r {
            Ok(headers) => request_headers(opt_view(*token), pair_list(custom_headers@)) == Ok::<
                Seq<Pair>,
                ErrorView,
            >(pair_list(headers@)),
            Err(e) => request_headers(opt_view(*token), pair_list(custom_headers@)) == Err::<
                Seq<Pair>,
                ErrorView,
            >(e@),
        },
{
    let mut headers: Vec<(String, String)> = Vec::new();
    match token {
        Some(t) => {
            let mut credential: String = "Bearer ".to_owned();
            credential.append(t.as_str());
            match parse_header_value(credential.as_str()) {
                Ok(value) => {
                    let ghost v = value@;
                    headers.push(("authorization".to_owned(), value));
                    assert(pair_list(headers@) =~= seq![("authorization"@, v)]);
                },
                Err(e) => {
                    return Err(transport_error("auth token: ", e.as_str()));
                },
            }
        },
        None => {
            assert(pair_list(headers@) =~= Seq::<Pair>::empty());
        },
    }
    let ghost start = pair_list(headers@);
    let ghost custom = pair_list(custom_headers@);
    assert(token_headers(opt_view(*token)) == Ok::<Seq<Pair>, ErrorView>(start));
    for i in 0..custom_headers.len()
        invariant
            custom == pair_list(custom_headers@),
            token_headers(opt_view(*token)) == Ok::<Seq<Pair>, ErrorView>(start),
            with_custom(start, custom.take(i as int)) == Ok::<Seq<Pair>, ErrorView>(
                pair_list(headers@),
            ),
    {
        proof {
            let next = custom.take(i + 1);
            assert(next.drop_last() =~= custom.take(i as int));
            assert(next.last() == custom[i as int]);
        }
        let name = match parse_header_name(custom_headers[i].0.as_str()) {
            Ok(name) => name,
            Err(e) => {
                proof {
                    lemma_custom_error_stays(start, custom, i + 1);
                }
                return Err(transport_error("header name: ", e.as_str()));
            },
        };
        let value = match parse_header_value(custom_headers[i].1.as_str()) {
            Ok(value) => value,
            Err(e) => {
                proof {
                    lemma_custom_error_stays(start, custom, i + 1);
                }
                return Err(transport_error("header value: ", e.as_str()));
            },
        };
        let ghost before = pair_list(headers@);
        let ghost n = name@;
        let ghost v = value@;
        proof {
            lemma_pair_keys(headers@);
        }
        let at = find_key(&headers, name.as_str());
        if at < headers.len() {
            let kept: String = headers[at].0.clone();
            headers.set(at, (kept, value));
        } else {
            headers.push((name, value));
        }
        assert(pair_list(headers@) =~= put_header(before, n, v));
    }
    assert(custom.take(custom_headers@.len() as int) =~= custom);
    Ok(headers)
}

/// Once a custom header was refused, the rest does not matter.
proof fn lemma_custom_error_stays(start: Seq<Pair>, custom: Seq<Pair>, n: int)
    requires
        0 <= n <= custom.len(),
        with_custom(start, custom.take(n)) is Err,
    ensures
        with_custom(start, custom) == with_custom(start, custom.take(n)),
    decreases custom.len() - n,
{
    if n < custom.len() {
        let next = custom.take(n + 1);
        assert(next.drop_last() =~= custom.take(n));
        lemma_custom_error_stays(start, custom, n + 1);
    } else {
        assert(custom.take(n) =~= custom);
    }
}

// ---------------------------------------------------------------------------
// Connection plans
// ---------------------------------------------------------------------------

/// Seconds after which an attempt to connect is given up.
pub const CONNECT_TIMEOUT_SECS: u64 = 10;

/// How the HTTP client of a connection is to be built.
pub struct HttpClientPlan<'a> {
    pub connect_timeout_secs: u64,
    pub proxy: Option<&'a McpProxyConfig>,
    /// Headers for every request, where there are any.
    pub default_headers: Option<Vec<(String, String)>>,
}

/// How a server is to be connected.
pub enum ConnectPlan<'a> {
    Stdio { command: &'a String, args: &'a Vec<String>, envs: &'a Vec<(String, String)> },
    Sse { url: &'a String, client: HttpClientPlan<'a> },
    Streamable { url: &'a String, client: HttpClientPlan<'a> },
}

/// The proxy of a server: its own, else the global one.
pub open spec fn effective_proxy(
    server: Option<McpProxyConfig>,
    global: Option<McpProxyConfig>,
) -> Option<McpProxyConfig> {
    if server is Some {
        server
    } else {
        global
    }
}

/// The proxy of a server: its own, else the global one.
pub fn resolve_proxy_config<'a>(
    server: &'a McpServerConfig,
    global: &'a Option<McpProxyConfig>,
) -> (r: Option<&'a McpProxyConfig>)
    ensures
        match r {
            Some(p) => effective_proxy(server.proxy, *global) == Some(*p),
            None => effective_proxy(server.proxy, *global) is None,
        },
{
    match &server.proxy {
        Some(p) => Some(p),
        None => match global {
            Some(p) => Some(p),
            None => None,
        },
    }
}

impl<'a> HttpClientPlan<'a> {
    /// Whether this is the plan for a proxy and headers.
    pub open spec fn is_for(self, proxy: Option<McpProxyConfig>, headers: Seq<Pair>) -> bool {
        &&& self.connect_timeout_secs == CONNECT_TIMEOUT_SECS
        &&& match self.proxy {
            Some(p) => proxy == Some(*p),
            None => proxy is None,
        }
        &&& match self.default_headers {
            Some(h) => pair_list(h@) == headers && headers.len() > 0,
            None => headers.len() == 0,
        }
    }
}

/// The headers of an HTTP client, or what stands in the way of building it: a
/// proxy that could not be set up, before headers that are refused. `outcome`
/// is what came of setting up the proxy; without a proxy it does not matter.
pub open spec fn client_headers(
    proxy: Option<McpProxyConfig>,
    outcome: Result<(), McpError>,
    token: Option<Seq<char>>,
    custom: Seq<Pair>,
) -> Result<Seq<Pair>, ErrorView> {
    match (proxy, outcome) {
        (Some(_), Err(e)) => Err(e@),
        _ => request_headers(token, custom),
    }
}

/// The plan for the HTTP client of a server, or what is wrong: its proxy could
/// not be set up, or else its token or headers are refused. `outcome` is what
/// came of setting up the proxy.
pub fn build_http_client<'a>(
    proxy: Option<&'a McpProxyConfig>,
    outcome: &Result<(), McpError>,
    token: &Option<String>,
    custom_headers: &Vec<(String, String)>,
) -> (r: Result<HttpClientPlan<'a>, McpError>)
    ensures
        ({
            let via = match proxy {
                Some(p) => Some(*p),
                None => None,
            };
            let wanted = client_headers(
                via,
                *outcome,
                opt_view(*token),
                pair_list(custom_headers@),
            );
            match r {
                Ok(plan) => wanted matches Ok(headers) && plan.is_for(via, headers),
                Err(e) => wanted == Err::<Seq<Pair>, ErrorView>(e@),
            }
        }),
{
    if let (Some(_), Err(e)) = (proxy, outcome) {
        return Err(e.clone());
    }
    let headers = match build_request_headers(token, custom_headers) {
        Ok(headers) => headers,
        Err(e) => {
            return Err(e);
        },
    };
    let default_headers = if headers.is_empty() {
        None
    } else {
        Some(headers)
    };
    Ok(HttpClientPlan { connect_timeout_secs: CONNECT_TIMEOUT_SECS, proxy, default_headers })
}

/// Whether `plan` is how a server is to be connected.
pub open spec fn is_plan_for(
    plan: ConnectPlan<'_>,
    server: McpServerConfig,
    global: Option<McpProxyConfig>,
) -> bool {
    let proxy = effective_proxy(server.proxy, global);
    match server.transport {
        McpTransport::Stdio { command, args, envs } => plan matches ConnectPlan::Stdio {
            command: c,
            args: a,
            envs: e,
        } && *c == command && *a == args && *e == envs,
        McpTransport::Sse { url, token, headers } => match (
            plan,
            request_headers(opt_view(token), pair_list(headers@)),
        ) {
            (ConnectPlan::Sse { url: u, client }, Ok(h)) => *u == url && client.is_for(proxy, h),
            _ => false,
        },
        McpTransport::Streamable { url, token, headers } => match (
            plan,
            request_headers(opt_view(token), pair_list(headers@)),
        ) {
            (ConnectPlan::Streamable { url: u, client }, Ok(h)) => *u == url && client.is_for(proxy, h),
            _ => false,
        },
    }
}

/// What stands in the way of connecting a server, before any attempt: a proxy
/// that could not be set up, or else headers that are refused.
pub open spec fn plan_error(
    server: McpServerConfig,
    global: Option<McpProxyConfig>,
    outcome: Result<(), McpError>,
) -> Option<ErrorView> {
    let proxy = effective_proxy(server.proxy, global);
    match server.transport {
        McpTransport::Stdio { .. } => None,
        McpTransport::Sse { url, token, headers } => match client_headers(
            proxy,
            outcome,
            opt_view(token),
            pair_list(headers@),
        ) {
            Ok(_) => None,
            Err(e) => Some(e),
        },
        McpTransport::Streamable { url, token, headers } => match client_headers(
            proxy,
            outcome,
            opt_view(token),
            pair_list(headers@),
        ) {
            Ok(_) => None,
            Err(e) => Some(e),
        },
    }
}

/// How a server is to be connected, or what stands in the way. `outcome` is
/// what came of setting up the proxy that [`resolve_proxy_config`] gives.
pub fn connect_server_plan<'a>(
    server: &'a McpServerConfig,
    global: &'a Option<McpProxyConfig>,
    outcome: &Result<(), McpError>,
) -> (r: Result<ConnectPlan<'a>, McpError>)
    ensures
        match r {
            Ok(plan) => plan_error(*server, *global, *outcome) is None && is_plan_for(
                plan,
                *server,
                *global,
            ),
            Err(e) => plan_error(*server, *global, *outcome) == Some(e@),
        },
{
    let proxy = resolve_proxy_config(server, global);
    match &server.transport {
        McpTransport::Stdio { command, args, envs } => Ok(
            ConnectPlan::Stdio { command, args, envs },
        ),
        McpTransport::Sse { url, token, headers } => match build_http_client(
            proxy,
            outcome,
            token,
            headers,
        ) {
            Ok(client) => Ok(ConnectPlan::Sse { url, client }),
            Err(e) => Err(e),
        },
        McpTransport::Streamable { url, token, headers } => match build_http_client(
            proxy,
            outcome,
            token,
            headers,
        ) {
            Ok(client) => Ok(ConnectPlan::Streamable { url, client }),
            Err(e) => Err(e),
        },
    }
}

/// How a server that a request brought along is to be connected: as any other,
/// but never by starting a process.
pub fn connect_dynamic_plan<'a>(
    server: &'a McpServerConfig,
    global: &'a Option<McpProxyConfig>,
    outcome: &Result<(), McpError>,
) -> (r: Result<ConnectPlan<'a>, McpError>)
    ensures
        match r {
            Ok(plan) => !(server.transport is Stdio) && plan_error(*server, *global, *outcome) is None
                && is_plan_for(plan, *server, *global),
            Err(e) => if server.transport is Stdio {
                e@ == ErrorView::Transport("Stdio not supported for dynamic connections"@)
            } else {
                plan_error(*server, *global, *outcome) == Some(e@)
            },
        },
{
    match &server.transport {
        McpTransport::Stdio { .. } => Err(
            McpError::Transport("Stdio not supported for dynamic connections".to_owned()),
        ),
        _ => connect_server_plan(server, global, outcome),
    }
}

/// That a server is internal does not change how it is connected.
pub proof fn law_internal_servers_are_connected_alike(
    plan: ConnectPlan<'_>,
    server: McpServerConfig,
    internal: bool,
    global: Option<McpProxyConfig>,
    outcome: Result<(), McpError>,
)
    ensures
        ({
            let other = McpServerConfig { internal, ..server };
            &&& is_plan_for(plan, other, global) == is_plan_for(plan, server, global)
            &&& plan_error(other, global, outcome) == plan_error(server, global, outcome)
        }),
{
}

/// The step of connecting at which an attempt failed.
#[derive(Debug, Clone, Copy, PartialEq, Eq, Structural)]
pub enum ConnectStep {
    HttpClient,
    StdioTransport,
    StdioHandshake,
    SseTransport,
    SseHandshake,
    StreamableHandshake,
    DynamicSseHandshake,
    DynamicStreamableHandshake,
}

/// The error for a failed attempt.
pub open spec fn step_error(step: ConnectStep, detail: Seq<char>) -> ErrorView {
    match step {
        ConnectStep::HttpClient => ErrorView::Transport("build HTTP client: "@ + detail),
        ConnectStep::StdioTransport => ErrorView::Transport("create stdio transport: "@ + detail),
        ConnectStep::StdioHandshake => ErrorView::ConnectionFailed(
            "initialize stdio client: "@ + detail,
        ),
        ConnectStep::SseTransport => ErrorView::Transport("create SSE transport: "@ + detail),
        ConnectStep::SseHandshake => ErrorView::ConnectionFailed(
            "initialize SSE client: "@ + detail,
        ),
        ConnectStep::StreamableHandshake => ErrorView::ConnectionFailed(
            "initialize streamable client: "@ + detail,
        ),
        ConnectStep::DynamicSseHandshake => ErrorView::ConnectionFailed("SSE: "@ + detail),
        ConnectStep::DynamicStreamableHandshake => ErrorView::ConnectionFailed(
            "streamable: "@ + detail,
        ),
    }
}

/// The error for an attempt to connect that failed at `step`.
pub fn connect_error(step: ConnectStep, detail: &str) -> (e: McpError)
    ensures
        e@ == step_error(step, detail@),
{
    match step {
        ConnectStep::HttpClient => transport_error("build HTTP client: ", detail),
        ConnectStep::StdioTransport => transport_error("create stdio transport: ", detail),
        ConnectStep::StdioHandshake => connection_error("initialize stdio client: ", detail),
        ConnectStep::SseTransport => transport_error("create SSE transport: ", detail),
        ConnectStep::SseHandshake => connection_error("initialize SSE client: ", detail),
        ConnectStep::StreamableHandshake => connection_error(
            "initialize streamable client: ",
            detail,
        ),
        ConnectStep::DynamicSseHandshake => connection_error("SSE: ", detail),
        ConnectStep::DynamicStreamableHandshake => connection_error("streamable: ", detail),
    }
}

} // verus!

//! From the tools of a request to the servers that it uses.

use vstd::prelude::*;

use crate::config::{
    clone_pairs, transport_headers, transport_token, transport_url, BuiltinToolType,
    McpServerConfig, McpTransport,
};
use crate::inventory::ResponseFormat;
use crate::orchestrator::{builtin_server, McpOrchestrator};
use crate::order::{pair_list, Pair};
use crate::request::{McpTool, ResponseTool};
use crate::session::{binding_views, BindingView, McpServerBinding};
use crate::text::{
    clone_list, clone_opt, contains, has_part, has_prefix, opt_view, starts_with, trim, trimmed,
    views,
};

verus! {

broadcast use vstd::string::group_string_axioms;

/// The most tool calls in one request.
pub const DEFAULT_MAX_ITERATIONS: usize = 10;

/// An MCP server that a request asks for, in whatever protocol.
#[derive(Debug, PartialEq, Eq)]
pub struct McpServerInput {
    pub label: String,
    pub url: Option<String>,
    pub authorization: Option<String>,
    pub headers: Vec<(String, String)>,
    /// The tools that are exposed; all of them where there is no list.
    pub allowed_tools: Option<Vec<String>>,
}

/// What an [`McpServerInput`] holds.
pub struct ServerInputView {
    pub label: Seq<char>,
    pub url: Option<Seq<char>>,
    pub authorization: Option<Seq<char>>,
    pub headers: Seq<Pair>,
    pub allowed_tools: Option<Seq<Seq<char>>>,
}

impl View for McpServerInput {
    type V = ServerInputView;

    open spec fn view(&self) -> ServerInputView {
        ServerInputView {
            label: self.label@,
            url: opt_view(self.url),
            authorization: opt_view(self.authorization),
            headers: pair_list(self.headers@),
            allowed_tools: opt_views(self.allowed_tools),
        }
    }
}

/// The views of a list of inputs.
pub open spec fn input_views(list: Seq<McpServerInput>) -> Seq<ServerInputView> {
    Seq::new(list.len(), |i: int| list[i]@)
}

/// What is to be done about a server that a request asks for.
pub enum InputPlan {
    /// It is connected with this configuration.
    Connect(McpServerConfig),
    /// It is a server of the configuration.
    UseStatic,
    /// Its address is not supported.
    Ignore,
}

/// The address of a server that a request brings along, if it does.
pub open spec fn dynamic_url(url: Option<Seq<char>>) -> Option<Seq<char>> {
    match url {
        Some(u) => if trimmed(u).len() > 0 {
            Some(trimmed(u))
        } else {
            None
        },
        None => None,
    }
}

/// Whether an address has a scheme that is supported.
pub open spec fn is_http_url(url: Seq<char>) -> bool {
    has_prefix(url, "http://"@) || has_prefix(url, "https://"@)
}

/// Whether `transport` reaches an address with the given credentials: by server
/// sent events where the address has the part `/sse`, else as a stream.
pub open spec fn transport_for(
    transport: McpTransport,
    url: Seq<char>,
    token: Option<Seq<char>>,
    headers: Seq<Pair>,
) -> bool {
    if has_part(url, "/sse"@) {
        transport matches McpTransport::Sse { url: u, token: t, headers: h } && u@ == url
            && opt_view(t) == token && pair_list(h@) == headers
    } else {
        transport matches McpTransport::Streamable { url: u, token: t, headers: h } && u@ == url
            && opt_view(t) == token && pair_list(h@) == headers
    }
}

/// Whether `plan` is what is to be done about `input`.
pub open spec fn is_plan(plan: InputPlan, input: ServerInputView) -> bool {
    match dynamic_url(input.url) {
        None => plan is UseStatic,
        Some(url) => if !is_http_url(url) {
            plan is Ignore
        } else {
            plan matches InputPlan::Connect(c) && c.name@ == input.label && transport_for(
                c.transport,
                url,
                input.authorization,
                input.headers,
            ) && c.proxy is None && !c.required && c.tools is None && c.builtin_type is None
                && c.builtin_tool_name is None && !c.internal
        },
    }
}

/// What is to be done about a server that a request asks for.
pub fn plan_input(input: &McpServerInput) -> (plan: InputPlan)
    ensures
        is_plan(plan, input@),
        plan matches InputPlan::Connect(c) ==> {
            &&& c.name@ == input.label@
            &&& input.url matches Some(url) && transport_url(c.transport) == Some(trimmed(url@))
            &&& transport_token(c.transport) == opt_view(input.authorization)
            &&& transport_headers(c.transport) == pair_list(input.headers@)
        },
{
    let given = match &input.url {
        Some(u) => trim(u.as_str()),
        None => {
            return InputPlan::UseStatic;
        },
    };
    if given.is_empty() {
        return InputPlan::UseStatic;
    }
    if !starts_with(given, "http://") && !starts_with(given, "https://") {
        return InputPlan::Ignore;
    }
    let token = clone_opt(&input.authorization);
    let headers = clone_pairs(&input.headers);
    let url: String = given.to_owned();
    let transport = if contains(given, "/sse") {
        McpTransport::Sse { url, token, headers }
    } else {
        McpTransport::Streamable { url, token, headers }
    };
    InputPlan::Connect(
        McpServerConfig {
            name: input.label.clone(),
            transport,
            proxy: None,
            required: false,
            tools: None,
            builtin_type: None,
            builtin_tool_name: None,
            internal: false,
        },
    )
}

/// Whether a server is among the bindings.
pub open spec fn is_bound(servers: Seq<BindingView>, key: Seq<char>) -> bool {
    exists|i: int| 0 <= i < servers.len() && (#[trigger] servers[i]).server_key == key
}

/// The bindings with one more, unless its server is there already.
pub open spec fn bind(servers: Seq<BindingView>, binding: BindingView) -> Seq<BindingView> {
    if is_bound(servers, binding.server_key) {
        servers
    } else {
        servers.push(binding)
    }
}

/// The view of an optional list of texts.
pub open spec fn opt_views(list: Option<Vec<String>>) -> Option<Seq<Seq<char>>> {
    match list {
        Some(l) => Some(views(l@)),
        None => None,
    }
}

/// The bindings after a server that a request asks for was taken in; whether it
/// could be connected matters where it has to be.
pub open spec fn with_input(
    servers: Seq<BindingView>,
    input: ServerInputView,
    connected: bool,
) -> Seq<BindingView> {
    match dynamic_url(input.url) {
        None => bind(
            servers,
            BindingView {
                label: input.label,
                server_key: input.label,
                allowed_tools: input.allowed_tools,
            },
        ),
        Some(url) => if is_http_url(url) && connected {
            bind(
                servers,
                BindingView {
                    label: input.label,
                    server_key: url,
                    allowed_tools: input.allowed_tools,
                },
            )
        } else {
            servers
        },
    }
}

/// The bindings for the first `n` servers that a request asks for.
pub open spec fn input_bindings(inputs: Seq<ServerInputView>, connected: Seq<bool>, n: int) -> Seq<
    BindingView,
>
    decreases n,
{
    if n <= 0 {
        Seq::empty()
    } else {
        with_input(input_bindings(inputs, connected, n - 1), inputs[n - 1], connected[n - 1])
    }
}

/// Whether no server is bound twice.
pub open spec fn bound_once(servers: Seq<BindingView>) -> bool {
    forall|i: int, j: int|
        0 <= i < servers.len() && 0 <= j < servers.len() && i != j ==> (
        #[trigger] servers[i]).server_key != (#[trigger] servers[j]).server_key
}

proof fn lemma_bind_keeps_once(servers: Seq<BindingView>, binding: BindingView)
    requires
        bound_once(servers),
    ensures
        bound_once(bind(servers, binding)),
{
}

/// However often a request asks for a server, it is bound once.
pub proof fn law_servers_are_bound_once(
    inputs: Seq<ServerInputView>,
    connected: Seq<bool>,
    n: int,
)
    requires
        0 <= n,
    ensures
        bound_once(input_bindings(inputs, connected, n)),
    decreases n,
{
    if n > 0 {
        law_servers_are_bound_once(inputs, connected, n - 1);
        let before = input_bindings(inputs, connected, n - 1);
        let input = inputs[n - 1];
        lemma_bind_keeps_once(
            before,
            BindingView {
                label: input.label,
                server_key: input.label,
                allowed_tools: input.allowed_tools,
            },
        );
        if dynamic_url(input.url) is Some {
            lemma_bind_keeps_once(
                before,
                BindingView {
                    label: input.label,
                    server_key: dynamic_url(input.url)->0,
                    allowed_tools: input.allowed_tools,
                },
            );
        }
    }
}

/// A server for built-in tools is bound once too, whether or not the request
/// asks for it as well.
pub proof fn law_builtin_servers_are_bound_once(
    inputs: Seq<ServerInputView>,
    connected: Seq<bool>,
    orchestrator: McpOrchestrator,
    types: Seq<BuiltinToolType>,
)
    ensures
        bound_once(
            with_builtin(
                input_bindings(inputs, connected, inputs.len() as int),
                orchestrator,
                types,
            ),
        ),
    decreases types.len(),
{
    let start = input_bindings(inputs, connected, inputs.len() as int);
    if types.len() == 0 {
        law_servers_are_bound_once(inputs, connected, inputs.len() as int);
    } else {
        law_builtin_servers_are_bound_once(inputs, connected, orchestrator, types.drop_last());
        let found = builtin_server(
            orchestrator@.records,
            orchestrator.config.servers@,
            types.last(),
        );
        if let Some(server) = found {
            lemma_bind_keeps_once(
                with_builtin(start, orchestrator, types.drop_last()),
                BindingView { label: server.0, server_key: server.0, allowed_tools: None },
            );
        }
    }
}

/// A copy of an optional list.
fn clone_allowed(list: &Option<Vec<String>>) -> (copy: Option<Vec<String>>)
    ensures
        opt_views(copy) == opt_views(*list),
{
    match list {
        Some(l) => Some(clone_list(l)),
        None => None,
    }
}

/// Puts a binding in, unless its server is there already.
fn add_binding(servers: &mut Vec<McpServerBinding>, binding: McpServerBinding)
    ensures
        binding_views(final(servers)@) == bind(binding_views(old(servers)@), binding@),
{
    let ghost before = binding_views(servers@);
    let ghost view = binding@;
    for i in 0..servers.len()
        invariant
            before == binding_views(servers@),
            view == binding@,
            *servers == *old(servers),
            forall|j: int| 0 <= j < i ==> (#[trigger] before[j]).server_key != view.server_key,
    {
        assert(before[i as int] == servers@[i as int]@);
        if servers[i].server_key == binding.server_key {
            assert(is_bound(before, view.server_key));
            return;
        }
    }
    assert(!is_bound(before, view.server_key));
    servers.push(binding);
    assert(binding_views(servers@) =~= before.push(view));
}

/// The servers of a request. `connected` tells for each server that it asks for
/// whether it could be connected, where it had to be.
pub fn connect_mcp_servers(inputs: &Vec<McpServerInput>, connected: &Vec<bool>) -> (servers: Vec<
    McpServerBinding,
>)
    requires
        connected@.len() == inputs@.len(),
    ensures
        binding_views(servers@) == input_bindings(
            input_views(inputs@),
            connected@,
            inputs@.len() as int,
        ),
{
    let ghost all = input_views(inputs@);
    let mut servers: Vec<McpServerBinding> = Vec::new();
    assert(binding_views(servers@) =~= Seq::<BindingView>::empty());
    for i in 0..inputs.len()
        invariant
            connected@.len() == inputs@.len(),
            all == input_views(inputs@),
            binding_views(servers@) == input_bindings(all, connected@, i as int),
    {
        let input = &inputs[i];
        assert(all[i as int] == input@);
        match plan_input(input) {
            InputPlan::UseStatic => {
                add_binding(
                    &mut servers,
                    McpServerBinding {
                        label: input.label.clone(),
                        server_key: input.label.clone(),
                        allowed_tools: clone_allowed(&input.allowed_tools),
                    },
                );
            },
            InputPlan::Connect(config) => {
                if connected[i] {
                    add_binding(
                        &mut servers,
                        McpServerBinding {
                            label: input.label.clone(),
                            server_key: McpOrchestrator::server_key(&config),
                            allowed_tools: clone_allowed(&input.allowed_tools),
                        },
                    );
                }
            },
            InputPlan::Ignore => {},
        }
    }
    servers
}

// ---------------------------------------------------------------------------
// Built-in tools
// ---------------------------------------------------------------------------

/// Where a built-in tool is routed to.
#[derive(Debug, PartialEq, Eq)]
pub struct BuiltinToolRouting {
    pub builtin_type: BuiltinToolType,
    pub server_name: String,
    pub tool_name: String,
    pub response_format: ResponseFormat,
}

/// Type, server, tool and format of a routing.
pub type RoutingView = (BuiltinToolType, Seq<char>, Seq<char>, ResponseFormat);

impl View for BuiltinToolRouting {
    type V = RoutingView;

    open spec fn view(&self) -> RoutingView {
        (self.builtin_type, self.server_name@, self.tool_name@, self.response_format)
    }
}

/// The views of a list of routings.
pub open spec fn routing_views(list: Seq<BuiltinToolRouting>) -> Seq<RoutingView> {
    Seq::new(list.len(), |i: int| list[i]@)
}

/// The built-in type of a tool that a client asks for.
pub open spec fn type_of_tool(tool: ResponseTool) -> Option<BuiltinToolType> {
    match tool {
        ResponseTool::WebSearchPreview(_) => Some(BuiltinToolType::WebSearchPreview),
        ResponseTool::CodeInterpreter(_) => Some(BuiltinToolType::CodeInterpreter),
        _ => None,
    }
}

/// The built-in type of a tool that a client asks for.
fn builtin_type_of(tool: &ResponseTool) -> (r: Option<BuiltinToolType>)
    ensures
        r == type_of_tool(*tool),
{
    match tool {
        ResponseTool::WebSearchPreview(_) => Some(BuiltinToolType::WebSearchPreview),
        ResponseTool::CodeInterpreter(_) => Some(BuiltinToolType::CodeInterpreter),
        _ => None,
    }
}

/// The built-in types that the tools of a request name, in their order.
pub open spec fn builtin_types(tools: Seq<ResponseTool>) -> Seq<BuiltinToolType>
    decreases tools.len(),
{
    if tools.len() == 0 {
        Seq::empty()
    } else {
        match type_of_tool(tools.last()) {
            Some(t) => builtin_types(tools.drop_last()).push(t),
            None => builtin_types(tools.drop_last()),
        }
    }
}

/// Where the built-in tools of a request are routed to: those for which a
/// server is configured.
pub open spec fn routings(tools: Seq<ResponseTool>, orchestrator: McpOrchestrator) -> Seq<
    RoutingView,
>
    decreases tools.len(),
{
    if tools.len() == 0 {
        Seq::empty()
    } else {
        let rest = routings(tools.drop_last(), orchestrator);
        match type_of_tool(tools.last()) {
            Some(t) => match builtin_server(
                orchestrator@.records,
                orchestrator.config.servers@,
                t,
            ) {
                Some(s) => rest.push((t, s.0, s.1, s.2)),
                None => rest,
            },
            None => rest,
        }
    }
}

/// Where the built-in tools of a request are routed to.
pub fn collect_builtin_routing(
    mcp_orchestrator: &McpOrchestrator,
    tools: Option<&Vec<ResponseTool>>,
) -> (routing: Vec<BuiltinToolRouting>)
    ensures
        routing_views(routing@) == (match tools {
            Some(list) => routings(list@, *mcp_orchestrator),
            None => Seq::empty(),
        }),
{
    let mut routing: Vec<BuiltinToolRouting> = Vec::new();
    assert(routing_views(routing@) =~= Seq::<RoutingView>::empty());
    if let Some(list) = tools {
        for i in 0..list.len()
            invariant
                routing_views(routing@) == routings(list@.take(i as int), *mcp_orchestrator),
        {
            proof {
                let next = list@.take(i + 1);
                assert(next.drop_last() =~= list@.take(i as int));
                assert(next.last() == list@[i as int]);
            }
            if let Some(builtin_type) = builtin_type_of(&list[i]) {
                if let Some(found) = mcp_orchestrator.find_builtin_server(builtin_type) {
                    let ghost before = routing_views(routing@);
                    let entry = BuiltinToolRouting {
                        builtin_type,
                        server_name: found.0,
                        tool_name: found.1,
                        response_format: found.2,
                    };
                    let ghost view = entry@;
                    routing.push(entry);
                    assert(routing_views(routing@) =~= before.push(view));
                }
            }
        }
        assert(list@.take(list@.len() as int) =~= list@);
    }
    routing
}

/// The built-in types that the tools of a request name.
pub fn extract_builtin_types(tools: &Vec<ResponseTool>) -> (types: Vec<BuiltinToolType>)
    ensures
        types@ == builtin_types(tools@),
{
    let mut types: Vec<BuiltinToolType> = Vec::new();
    for i in 0..tools.len()
        invariant
            types@ == builtin_types(tools@.take(i as int)),
    {
        proof {
            let next = tools@.take(i + 1);
            assert(next.drop_last() =~= tools@.take(i as int));
            assert(next.last() == tools@[i as int]);
        }
        if let Some(t) = builtin_type_of(&tools[i]) {
            types.push(t);
        }
    }
    assert(tools@.take(tools@.len() as int) =~= tools@);
    types
}

/// The bindings with the servers for built-in types.
pub open spec fn with_builtin(
    servers: Seq<BindingView>,
    orchestrator: McpOrchestrator,
    types: Seq<BuiltinToolType>,
) -> Seq<BindingView>
    decreases types.len(),
{
    if types.len() == 0 {
        servers
    } else {
        let rest = with_builtin(servers, orchestrator, types.drop_last());
        match builtin_server(
            orchestrator@.records,
            orchestrator.config.servers@,
            types.last(),
        ) {
            Some(s) => bind(
                rest,
                BindingView { label: s.0, server_key: s.0, allowed_tools: None },
            ),
            None => rest,
        }
    }
}

/// All servers of a request: those that it asks for, then those for its
/// built-in tools. `None` where there is no server at all.
pub fn ensure_mcp_servers(
    orchestrator: &McpOrchestrator,
    inputs: &Vec<McpServerInput>,
    connected: &Vec<bool>,
    types: &Vec<BuiltinToolType>,
) -> (r: Option<Vec<McpServerBinding>>)
    requires
        connected@.len() == inputs@.len(),
    ensures
        ({
            let all = with_builtin(
                input_bindings(input_views(inputs@), connected@, inputs@.len() as int),
                *orchestrator,
                types@,
            );
            match r {
                Some(servers) => binding_views(servers@) == all && all.len() > 0,
                None => all.len() == 0,
            }
        }),
{
    let mut servers = connect_mcp_servers(inputs, connected);
    let ghost start = binding_views(servers@);
    for i in 0..types.len()
        invariant
            binding_views(servers@) == with_builtin(
                start,
                *orchestrator,
                types@.take(i as int),
            ),
    {
        proof {
            let next = types@.take(i + 1);
            assert(next.drop_last() =~= types@.take(i as int));
            assert(next.last() == types@[i as int]);
        }
        if let Some(found) = orchestrator.find_builtin_server(types[i]) {
            let server_name = found.0;
            add_binding(
                &mut servers,
                McpServerBinding {
                    label: server_name.clone(),
                    server_key: server_name,
                    allowed_tools: None,
                },
            );
        }
    }
    assert(types@.take(types@.len() as int) =~= types@);
    assert(binding_views(servers@).len() == servers@.len());
    if servers.is_empty() {
        None
    } else {
        Some(servers)
    }
}

/// What an MCP tool of a request asks for.
pub open spec fn input_of(tool: McpTool) -> ServerInputView {
    ServerInputView {
        label: tool.server_label@,
        url: opt_view(tool.server_url),
        authorization: opt_view(tool.authorization),
        headers: match tool.headers {
            Some(h) => pair_list(h@),
            None => Seq::empty(),
        },
        allowed_tools: opt_views(tool.allowed_tools),
    }
}

/// What the tools of a request ask for, in their order.
pub open spec fn inputs_of(tools: Seq<ResponseTool>) -> Seq<ServerInputView>
    decreases tools.len(),
{
    if tools.len() == 0 {
        Seq::empty()
    } else {
        match tools.last() {
            ResponseTool::Mcp(mcp) => inputs_of(tools.drop_last()).push(input_of(mcp)),
            _ => inputs_of(tools.drop_last()),
        }
    }
}

/// The servers that the tools of a request ask for.
pub fn request_inputs(tools: &Vec<ResponseTool>) -> (inputs: Vec<McpServerInput>)
    ensures
        input_views(inputs@) == inputs_of(tools@),
{
    let mut inputs: Vec<McpServerInput> = Vec::new();
    assert(input_views(inputs@) =~= Seq::<ServerInputView>::empty());
    for n in 0..tools.len()
        invariant
            input_views(inputs@) == inputs_of(tools@.take(n as int)),
    {
        proof {
            let next = tools@.take(n + 1);
            assert(next.drop_last() =~= tools@.take(n as int));
            assert(next.last() == tools@[n as int]);
        }
        match &tools[n] {
            ResponseTool::Mcp(mcp) => {
                let headers = match &mcp.headers {
                    Some(h) => clone_pairs(h),
                    None => Vec::new(),
                };
                let input = McpServerInput {
                    label: mcp.server_label.clone(),
                    url: clone_opt(&mcp.server_url),
                    authorization: clone_opt(&mcp.authorization),
                    headers,
                    allowed_tools: clone_allowed(&mcp.allowed_tools),
                };
                let ghost before = input_views(inputs@);
                let ghost view = input@;
                assert(view.headers =~= input_of(*mcp).headers);
                inputs.push(input);
                assert(input_views(inputs@) =~= before.push(view));
            },
            _ => {},
        }
    }
    assert(tools@.take(tools@.len() as int) =~= tools@);
    inputs
}

/// All servers of a request with these tools. `connected` tells for each MCP
/// tool whether its server could be connected, where it had to be.
pub fn ensure_request_mcp_client(
    orchestrator: &McpOrchestrator,
    tools: &Vec<ResponseTool>,
    connected: &Vec<bool>,
) -> (r: Option<Vec<McpServerBinding>>)
    requires
        connected@.len() == inputs_of(tools@).len(),
    ensures
        ({
            let inputs = inputs_of(tools@);
            let all = with_builtin(
                input_bindings(inputs, connected@, inputs.len() as int),
                *orchestrator,
                builtin_types(tools@),
            );
            match r {
                Some(servers) => binding_views(servers@) == all && all.len() > 0,
                None => all.len() == 0,
            }
        }),
{
    let inputs = request_inputs(tools);
    assert(input_views(inputs@).len() == inputs@.len());
    let types = extract_builtin_types(tools);
    ensure_mcp_servers(orchestrator, &inputs, connected, &types)
}

} // verus!

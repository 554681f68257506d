//! Laws of binding the servers of a request.

use vstd::prelude::*;

use crate::config::{transport_headers, transport_token, transport_url, BuiltinToolType};
use crate::mcp_utils::{
    builtin_types, dynamic_url, input_bindings, input_of, inputs_of, is_http_url, is_plan,
    opt_views, routings, with_builtin, with_input, InputPlan, RoutingView, ServerInputView,
};
use crate::orchestrator::{builtin_server, McpOrchestrator};
use crate::order::pair_list;
use crate::request::{McpTool, ResponseTool};
use crate::session::BindingView;
use crate::text::{has_part, opt_view, trimmed};

verus! {

broadcast use vstd::string::group_string_axioms;

/// The built-in types that a request names are those of its web searches and code
/// interpreters, in their order.
pub proof fn law_builtin_types_are_taken_one_by_one(
    a: Seq<ResponseTool>,
    b: Seq<ResponseTool>,
    x: ResponseTool,
)
    ensures
        builtin_types(a + b) == builtin_types(a) + builtin_types(b),
        builtin_types(Seq::<ResponseTool>::empty()) == Seq::<BuiltinToolType>::empty(),
        builtin_types(seq![x]) == (match x {
            ResponseTool::WebSearchPreview(_) => seq![BuiltinToolType::WebSearchPreview],
            ResponseTool::CodeInterpreter(_) => seq![BuiltinToolType::CodeInterpreter],
            _ => Seq::empty(),
        }),
    decreases b.len(),
{
    reveal_with_fuel(builtin_types, 2);
    assert(seq![x].drop_last() =~= Seq::<ResponseTool>::empty());
    assert(builtin_types(seq![x]) =~= (match x {
            ResponseTool::WebSearchPreview(_) => seq![BuiltinToolType::WebSearchPreview],
            ResponseTool::CodeInterpreter(_) => seq![BuiltinToolType::CodeInterpreter],
            _ => Seq::empty(),
        }));
    if b.len() == 0 {
        assert(a + b =~= a);
        assert(builtin_types(a) + builtin_types(b) =~= builtin_types(a));
    } else {
        law_builtin_types_are_taken_one_by_one(a, b.drop_last(), x);
        assert((a + b).drop_last() =~= a + b.drop_last());
        assert(builtin_types(a + b) =~= builtin_types(a) + builtin_types(b));
    }
}

/// The servers that a request names are its MCP tools, in their order.
pub proof fn law_inputs_are_taken_one_by_one(
    a: Seq<ResponseTool>,
    b: Seq<ResponseTool>,
    x: ResponseTool,
)
    ensures
        inputs_of(a + b) == inputs_of(a) + inputs_of(b),
        inputs_of(Seq::<ResponseTool>::empty()) == Seq::<ServerInputView>::empty(),
        inputs_of(seq![x]) == (match x {
            ResponseTool::Mcp(mcp) => seq![input_of(mcp)],
            _ => Seq::empty(),
        }),
    decreases b.len(),
{
    reveal_with_fuel(inputs_of, 2);
    assert(seq![x].drop_last() =~= Seq::<ResponseTool>::empty());
    assert(inputs_of(seq![x]) =~= (match x {
            ResponseTool::Mcp(mcp) => seq![input_of(mcp)],
            _ => Seq::empty(),
        }));
    if b.len() == 0 {
        assert(a + b =~= a);
        assert(inputs_of(a) + inputs_of(b) =~= inputs_of(a));
    } else {
        law_inputs_are_taken_one_by_one(a, b.drop_last(), x);
        assert((a + b).drop_last() =~= a + b.drop_last());
        assert(inputs_of(a + b) =~= inputs_of(a) + inputs_of(b));
    }
}

/// A built-in tool of a request is routed to the server of its type, where there is
/// one.
pub proof fn law_routings_are_taken_one_by_one(
    a: Seq<ResponseTool>,
    b: Seq<ResponseTool>,
    x: ResponseTool,
    orchestrator: McpOrchestrator,
)
    ensures
        routings(a + b, orchestrator) == routings(a, orchestrator) + routings(b, orchestrator),
        routings(Seq::<ResponseTool>::empty(), orchestrator) == Seq::<RoutingView>::empty(),
        routings(seq![x], orchestrator) == (match x {
            ResponseTool::WebSearchPreview(_) => match builtin_server(
                orchestrator@.records,
                orchestrator.config.servers@,
                BuiltinToolType::WebSearchPreview,
            ) {
                Some(s) => seq![(BuiltinToolType::WebSearchPreview, s.0, s.1, s.2)],
                None => Seq::empty(),
            },
            ResponseTool::CodeInterpreter(_) => match builtin_server(
                orchestrator@.records,
                orchestrator.config.servers@,
                BuiltinToolType::CodeInterpreter,
            ) {
                Some(s) => seq![(BuiltinToolType::CodeInterpreter, s.0, s.1, s.2)],
                None => Seq::empty(),
            },
            _ => Seq::empty(),
        }),
    decreases b.len(),
{
    reveal_with_fuel(routings, 2);
    assert(seq![x].drop_last() =~= Seq::<ResponseTool>::empty());
    assert(routings(seq![x], orchestrator) =~= (match x {
            ResponseTool::WebSearchPreview(_) => match builtin_server(
                orchestrator@.records,
                orchestrator.config.servers@,
                BuiltinToolType::WebSearchPreview,
            ) {
                Some(s) => seq![(BuiltinToolType::WebSearchPreview, s.0, s.1, s.2)],
                None => Seq::empty(),
            },
            ResponseTool::CodeInterpreter(_) => match builtin_server(
                orchestrator@.records,
                orchestrator.config.servers@,
                BuiltinToolType::CodeInterpreter,
            ) {
                Some(s) => seq![(BuiltinToolType::CodeInterpreter, s.0, s.1, s.2)],
                None => Seq::empty(),
            },
            _ => Seq::empty(),
        }));
    if b.len() == 0 {
        assert(a + b =~= a);
        assert(routings(a, orchestrator) + routings(b, orchestrator) =~= routings(a, orchestrator));
    } else {
        law_routings_are_taken_one_by_one(a, b.drop_last(), x, orchestrator);
        assert((a + b).drop_last() =~= a + b.drop_last());
        assert(routings(a + b, orchestrator) =~= routings(a, orchestrator) + routings(b, orchestrator));
    }
}

/// What a request says of a server is what the server is reached with.
pub proof fn law_input_of_a_tool(tool: McpTool)
    ensures
        input_of(tool).label == tool.server_label@,
        input_of(tool).url == opt_view(tool.server_url),
        input_of(tool).authorization == opt_view(tool.authorization),
        tool.headers matches Some(headers) ==> input_of(tool).headers == pair_list(headers@),
        tool.headers is None ==> input_of(tool).headers.len() == 0,
        input_of(tool).allowed_tools == opt_views(tool.allowed_tools),
{
}

/// An address counts without the white space around it, and not at all where
/// nothing else is in it.
pub proof fn law_address(url: Seq<char>)
    ensures
        dynamic_url(None) is None,
        trimmed(url).len() == 0 ==> dynamic_url(Some(url)) is None,
        trimmed(url).len() > 0 ==> dynamic_url(Some(url)) == Some(trimmed(url)),
        forall|rest: Seq<char>| #[trigger] is_http_url("http://"@ + rest),
        forall|rest: Seq<char>| #[trigger] is_http_url("https://"@ + rest),
        is_http_url(url) ==> url.len() >= 4 && url[0] == 'h' && url[1] == 't' && url[2] == 't'
            && url[3] == 'p',
{
    reveal_strlit("http://");
    reveal_strlit("https://");
    assert forall|rest: Seq<char>| #[trigger] is_http_url("http://"@ + rest) by {
        assert(("http://"@ + rest).subrange(0, 7) =~= "http://"@);
    }
    assert forall|rest: Seq<char>| #[trigger] is_http_url("https://"@ + rest) by {
        assert(("https://"@ + rest).subrange(0, 8) =~= "https://"@);
    }
    if is_http_url(url) {
        if url.len() >= 8 && url.subrange(0, 8) == "https://"@ {
            assert(url.subrange(0, 8)[0] == url[0] && url.subrange(0, 8)[1] == url[1]
                && url.subrange(0, 8)[2] == url[2] && url.subrange(0, 8)[3] == url[3]);
        } else {
            assert(url.subrange(0, 7)[0] == url[0] && url.subrange(0, 7)[1] == url[1]
                && url.subrange(0, 7)[2] == url[2] && url.subrange(0, 7)[3] == url[3]);
        }
    }
}

/// A server with an address is connected at that address, with the
/// authorization and the headers that the request gave, under the label that it
/// gave: by events where `/sse` stands in the address, else as a stream. An
/// address that is not one of HTTP is ignored. Without an address the server is
/// one of the configuration.
pub proof fn law_server_is_reached_as_the_request_says(plan: InputPlan, input: ServerInputView)
    requires
        is_plan(plan, input),
    ensures
        plan matches InputPlan::Connect(c) ==> {
            &&& input.url matches Some(url)
            &&& trimmed(url).len() > 0
            &&& is_http_url(trimmed(url))
            &&& c.name@ == input.label
            &&& transport_url(c.transport) == Some(trimmed(url))
            &&& transport_token(c.transport) == input.authorization
            &&& transport_headers(c.transport) == input.headers
            &&& has_part(trimmed(url), "/sse"@) ==> c.transport is Sse
            &&& !has_part(trimmed(url), "/sse"@) ==> c.transport is Streamable
            &&& c.proxy is None
            &&& c.tools is None
            &&& c.builtin_type is None
            &&& c.builtin_tool_name is None
            &&& !c.internal
            &&& !c.required
        },
        input.url is None ==> plan is UseStatic,
        input.url matches Some(url) ==> {
            &&& trimmed(url).len() == 0 ==> plan is UseStatic
            &&& trimmed(url).len() > 0 && is_http_url(trimmed(url)) ==> plan is Connect
            &&& trimmed(url).len() > 0 && !is_http_url(trimmed(url)) ==> plan is Ignore
        },
{
}

/// The key by which an input is bound, where it is.
pub open spec fn bound_key(input: ServerInputView, connected: bool) -> Option<Seq<char>> {
    match input.url {
        Some(url) => if trimmed(url).len() == 0 {
            Some(input.label)
        } else if is_http_url(trimmed(url)) && connected {
            Some(trimmed(url))
        } else {
            None
        },
        None => Some(input.label),
    }
}

/// A server of the configuration is bound under its label, and one that was
/// connected under its address, with the tools that the request allows, behind
/// the servers that are bound already. A server that is bound already, or could
/// not be connected, adds nothing.
pub proof fn law_input_is_bound(servers: Seq<BindingView>, input: ServerInputView, connected: bool)
    ensures
        ({
            let after = with_input(servers, input, connected);
            match bound_key(input, connected) {
                Some(key) => if exists|i: int|
                    0 <= i < servers.len() && (#[trigger] servers[i]).server_key == key {
                    after == servers
                } else {
                    &&& after.len() == servers.len() + 1
                    &&& after.drop_last() == servers
                    &&& after.last().label == input.label
                    &&& after.last().server_key == key
                    &&& after.last().allowed_tools == input.allowed_tools
                },
                None => after == servers,
            }
        }),
{
    let after = with_input(servers, input, connected);
    if after.len() == servers.len() + 1 {
        assert(after.drop_last() =~= servers);
    }
}

/// Every input that is a server of the configuration or was connected is bound,
/// and every binding is that of an input. What was bound for earlier inputs
/// stays in its place.
pub proof fn law_inputs_are_bound(inputs: Seq<ServerInputView>, connected: Seq<bool>, n: int, i: int)
    requires
        0 <= n,
    ensures
        ({
            let servers = input_bindings(inputs, connected, n);
            &&& 0 <= i < n ==> (bound_key(inputs[i], connected[i]) matches Some(key) ==> exists|
                j: int,
            |
                0 <= j < servers.len() && (#[trigger] servers[j]).server_key == key)
            &&& 0 <= i < servers.len() ==> exists|j: int|
                0 <= j < n && #[trigger] is_binding_of(servers[i], inputs[j], connected[j])
            &&& n > 0 ==> input_bindings(inputs, connected, n - 1).is_prefix_of(servers)
        }),
    decreases n,
{
    if n > 0 {
        let before = input_bindings(inputs, connected, n - 1);
        let servers = input_bindings(inputs, connected, n);
        law_input_is_bound(before, inputs[n - 1], connected[n - 1]);
        law_inputs_are_bound(inputs, connected, n - 1, i);
        assert forall|k: int| 0 <= k < before.len() implies #[trigger] servers[k] == before[k] by {
            if servers.len() > before.len() {
                assert(servers.drop_last()[k] == servers[k]);
            }
        }
        assert(before =~= servers.subrange(0, before.len() as int));
        if 0 <= i < n && bound_key(inputs[i], connected[i]) is Some {
            let key = bound_key(inputs[i], connected[i])->0;
            if i < n - 1 {
                let j = choose|j: int|
                    0 <= j < before.len() && (#[trigger] before[j]).server_key == key;
                assert(servers[j].server_key == key);
            } else if servers.len() > before.len() {
                assert(servers[servers.len() - 1].server_key == key);
            }
        }
        if 0 <= i < servers.len() {
            if i < before.len() {
                let j = choose|j: int|
                    0 <= j < n - 1 && #[trigger] is_binding_of(before[i], inputs[j], connected[j]);
                assert(servers[i] == before[i]);
                assert(is_binding_of(servers[i], inputs[j], connected[j]));
            } else {
                assert(servers[i] == servers.last());
                assert(is_binding_of(servers[i], inputs[n - 1], connected[n - 1]));
            }
        }
    }
}

/// Whether a binding is the one of an input.
pub open spec fn is_binding_of(binding: BindingView, input: ServerInputView, connected: bool) -> bool {
    &&& binding.label == input.label
    &&& bound_key(input, connected) == Some(binding.server_key)
    &&& binding.allowed_tools == input.allowed_tools
}

/// The server of a built-in type that a request names is bound under its name,
/// with all its tools, behind the servers that are bound already.
pub proof fn law_builtin_server_is_bound(
    servers: Seq<BindingView>,
    orchestrator: McpOrchestrator,
    types: Seq<BuiltinToolType>,
    t: BuiltinToolType,
)
    ensures
        ({
            let before = with_builtin(servers, orchestrator, types);
            let after = with_builtin(servers, orchestrator, types.push(t));
            &&& servers.is_prefix_of(before)
            &&& match builtin_server(orchestrator@.records, orchestrator.config.servers@, t) {
                Some(s) => if exists|i: int|
                    0 <= i < before.len() && (#[trigger] before[i]).server_key == s.0 {
                    after == before
                } else {
                    &&& after.drop_last() == before
                    &&& after.last().label == s.0
                    &&& after.last().server_key == s.0
                    &&& after.last().allowed_tools is None
                },
                None => after == before,
            }
            &&& with_builtin(servers, orchestrator, Seq::empty()) == servers
        }),
    decreases types.len(),
{
    assert(types.push(t).drop_last() =~= types);
    let before = with_builtin(servers, orchestrator, types);
    let after = with_builtin(servers, orchestrator, types.push(t));
    if after.len() == before.len() + 1 {
        assert(after.drop_last() =~= before);
    }
    if types.len() > 0 {
        law_builtin_server_is_bound(servers, orchestrator, types.drop_last(), types.last());
        assert(types.drop_last().push(types.last()) =~= types);
        let earlier = with_builtin(servers, orchestrator, types.drop_last());
        assert(servers =~= earlier.subrange(0, servers.len() as int));
        assert forall|k: int| 0 <= k < earlier.len() implies #[trigger] before[k] == earlier[k] by {
            if before.len() > earlier.len() {
                assert(before.drop_last()[k] == before[k]);
            }
        }
        assert forall|k: int| 0 <= k < servers.len() implies #[trigger] servers[k] == before[k] by {
            assert(earlier.subrange(0, servers.len() as int)[k] == earlier[k]);
        }
        assert(servers =~= before.subrange(0, servers.len() as int));
    } else {
        assert(servers =~= before.subrange(0, servers.len() as int));
    }
}

} // verus!

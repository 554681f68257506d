//! Laws of what values stand for: nothing of them is left out.

use vstd::prelude::*;

use crate::calling::ToolCall;
use crate::clients::no_clients;
use crate::config::{DecisionView, PolicyDecisionConfig, PolicyWire, WireView};
use crate::error::{ErrorView, McpError};
use crate::inventory::{
    alias_views, empty_inventory, kept_views, offer_views, offered_views, opt_mapping, tool_views,
    ArgMapping, EntryView, Offer, OfferEntry, QualifiedToolName, Tool, ToolEntry,
};
use crate::json::{entry_views, json_views, opt_json, Json, JsonView};
use crate::mcp_utils::{input_views, routing_views, BuiltinToolRouting, McpServerInput};
use crate::orchestrator::{
    connection_view, empty_state, record_views, McpOrchestrator, ServerRecord, StaticConnection,
};
use crate::order::pair_list;
use crate::pool::PoolKey;
use crate::request::{InputView, ResponseInput};
use crate::session::{
    binding_views, exposed_views, listed_views, lists_servers, of_server, session_tools,
    tools_listed, visible_servers, BindingView, ExposedTool, McpServerBinding, McpToolSession,
};
use crate::stream_loop::StreamLoop;
use crate::streaming::{client_event, is_changed, SSE_DONE, SseEventData, StreamingEventContext};
use crate::text::{opt_view, views};
use crate::tool_loop::{call_views, ExtractedFunctionCall, FunctionCallInProgress, ToolLoopState};

verus! {

broadcast use {
    crate::json::group_json_views,
    crate::laws::objects::law_written_entry,
    vstd::string::group_string_axioms,
};

/// A JSON value stands for itself, with all its items and entries.
pub proof fn law_json_stands_for_itself(json: Json, i: int)
    ensures
        json is Null ==> json@ is Null,
        json matches Json::Bool(b) ==> json@ == JsonView::Bool(b),
        json matches Json::Number(n) ==> json@ == JsonView::Number(n@),
        json matches Json::Text(s) ==> json@ == JsonView::Text(s@),
        json matches Json::Array(items) ==> (json@ matches JsonView::Array(list) && list.len()
            == items@.len() && (0 <= i < items@.len() ==> list[i] == items@[i]@)),
        json matches Json::Object(entries) ==> (json@ matches JsonView::Object(list) && list.len()
            == entries@.len() && (0 <= i < entries@.len() ==> list[i] == (
            entries@[i].0@,
            entries@[i].1@,
        ))),
{
}

/// Lists stand for what their items stand for, in their order.
pub proof fn law_lists_stand_for_their_items(
    json: Seq<Json>,
    entries: Seq<(String, Json)>,
    pairs: Seq<(String, String)>,
    texts: Seq<String>,
    i: int,
)
    ensures
        json_views(json).len() == json.len(),
        0 <= i < json.len() ==> json_views(json)[i] == json[i]@,
        entry_views(entries).len() == entries.len(),
        0 <= i < entries.len() ==> entry_views(entries)[i] == (entries[i].0@, entries[i].1@),
        pair_list(pairs).len() == pairs.len(),
        0 <= i < pairs.len() ==> pair_list(pairs)[i] == (pairs[i].0@, pairs[i].1@),
        views(texts).len() == texts.len(),
        0 <= i < texts.len() ==> views(texts)[i] == texts[i]@,
{
}

/// What a request says of its servers and bindings is kept whole.
pub proof fn law_servers_of_a_request(
    inputs: Seq<McpServerInput>,
    bindings: Seq<McpServerBinding>,
    routings: Seq<BuiltinToolRouting>,
    i: int,
)
    ensures
        input_views(inputs).len() == inputs.len(),
        0 <= i < inputs.len() ==> {
            &&& input_views(inputs)[i].label == inputs[i].label@
            &&& input_views(inputs)[i].url == opt_view(inputs[i].url)
            &&& input_views(inputs)[i].authorization == opt_view(inputs[i].authorization)
            &&& input_views(inputs)[i].headers == pair_list(inputs[i].headers@)
            &&& inputs[i].allowed_tools matches Some(list) ==> input_views(inputs)[i].allowed_tools
                == Some(views(list@))
            &&& inputs[i].allowed_tools is None ==> input_views(inputs)[i].allowed_tools is None
        },
        binding_views(bindings).len() == bindings.len(),
        0 <= i < bindings.len() ==> {
            &&& binding_views(bindings)[i].label == bindings[i].label@
            &&& binding_views(bindings)[i].server_key == bindings[i].server_key@
            &&& bindings[i].allowed_tools matches Some(list) ==> binding_views(
                bindings,
            )[i].allowed_tools == Some(views(list@))
            &&& bindings[i].allowed_tools is None ==> binding_views(
                bindings,
            )[i].allowed_tools is None
        },
        routing_views(routings).len() == routings.len(),
        0 <= i < routings.len() ==> routing_views(routings)[i] == (
            routings[i].builtin_type,
            routings[i].server_name@,
            routings[i].tool_name@,
            routings[i].response_format,
        ),
{
}

/// A tool is kept as its server describes it.
pub proof fn law_tools_are_kept_whole(
    tools: Seq<Tool>,
    entries: Seq<ToolEntry>,
    exposed: Seq<ExposedTool>,
    offers: Seq<Offer>,
    kept: Seq<OfferEntry>,
    aliases: Seq<(String, QualifiedToolName)>,
    i: int,
)
    ensures
        offered_views(tools).len() == tools.len(),
        0 <= i < tools.len() ==> {
            let tool = offered_views(tools)[i];
            &&& tool.name == tools[i].name@
            &&& tool.title == opt_view(tools[i].title)
            &&& tool.description == opt_view(tools[i].description)
            &&& tool.input_schema == tools[i].input_schema@
            &&& tool.output_schema == opt_json(tools[i].output_schema)
            &&& tool.icons == opt_json(tools[i].icons)
            &&& tools[i].annotations is None ==> tool.annotations is None
            &&& tools[i].annotations matches Some(a) ==> (tool.annotations matches Some(b)
                && b.title == opt_view(a.title) && b.read_only_hint == a.read_only_hint
                && b.destructive_hint == a.destructive_hint && b.idempotent_hint
                == a.idempotent_hint && b.open_world_hint == a.open_world_hint)
        },
        tool_views(entries).len() == entries.len(),
        0 <= i < entries.len() ==> {
            let entry = tool_views(entries)[i];
            &&& entry.name == (
                entries[i].qualified_name.server_key@,
                entries[i].qualified_name.tool_name@,
            )
            &&& entry.tool == entries[i].tool@
            &&& entry.response_format == entries[i].response_format
            &&& entry.category == entries[i].category
            &&& entries[i].alias_target is None ==> entry.alias is None
            &&& entries[i].alias_target matches Some(a) ==> (entry.alias matches Some(b)
                && b.target == (a.target.server_key@, a.target.tool_name@) && b.arg_mapping
                == opt_mapping(a.arg_mapping))
        },
        exposed_views(exposed).len() == exposed.len(),
        0 <= i < exposed.len() ==> {
            let shown = exposed_views(exposed)[i];
            &&& shown.exposed_name == exposed[i].exposed_name@
            &&& shown.server_key == exposed[i].server_key@
            &&& shown.server_label == exposed[i].server_label@
            &&& shown.resolved_tool_name == exposed[i].resolved_tool_name@
            &&& shown.response_format == exposed[i].response_format
        },
        offer_views(offers).len() == offers.len(),
        0 <= i < offers.len() ==> offer_views(offers)[i] == (offers[i].key@, offers[i].content@),
        kept_views(kept).len() == kept.len(),
        0 <= i < kept.len() ==> kept_views(kept)[i].key == kept[i].key@ && kept_views(
            kept,
        )[i].server == kept[i].server_key@ && kept_views(kept)[i].content == kept[i].content@,
        alias_views(aliases).len() == aliases.len(),
        0 <= i < aliases.len() ==> alias_views(aliases)[i] == (
            aliases[i].0@,
            (aliases[i].1.server_key@, aliases[i].1.tool_name@),
        ),
{
}

/// How arguments are mapped is kept whole.
pub proof fn law_mappings_are_kept_whole(mapping: ArgMapping)
    ensures
        mapping@.renames == pair_list(mapping.renames@),
        mapping@.defaults == entry_views(mapping.defaults@),
        opt_mapping(Some(mapping)) == Some(mapping@),
        opt_mapping(None) is None,
{
}

/// A call stands for its identifier, its name and its arguments.
pub proof fn law_calls_are_kept_whole(
    calls: Seq<ExtractedFunctionCall>,
    call: FunctionCallInProgress,
    key: PoolKey,
    i: int,
)
    ensures
        call_views(calls).len() == calls.len(),
        0 <= i < calls.len() ==> call_views(calls)[i] == (
            calls[i].call_id@,
            calls[i].name@,
            calls[i].arguments@,
        ),
        call@ == (call.call_id@, call.name@, call.arguments_buffer@),
        key@ == (key.url@, key.auth_hash, opt_view(key.tenant_id)),
{
}

/// The state of a loop, its input and the data of an event are kept whole.
pub proof fn law_state_is_kept_whole(state: ToolLoopState, input: ResponseInput, i: int)
    ensures
        state.history() == json_views(state.conversation_history@),
        state.items() == json_views(state.mcp_call_items@),
        input matches ResponseInput::Text(t) ==> input@ == InputView::Text(t@),
        input matches ResponseInput::Items(items) ==> input@ == InputView::Items(
            json_views(items@),
        ),
{
}

/// An error stands for its kind and its detail.
pub proof fn law_errors_are_kept_whole(error: McpError)
    ensures
        error matches McpError::Config(s) ==> error@ == ErrorView::Config(s@),
        error matches McpError::Transport(s) ==> error@ == ErrorView::Transport(s@),
        error matches McpError::ConnectionFailed(s) ==> error@ == ErrorView::ConnectionFailed(s@),
        error matches McpError::ToolNotFound(s) ==> error@ == ErrorView::ToolNotFound(s@),
        error matches McpError::ToolDenied(s) ==> error@ == ErrorView::ToolDenied(s@),
        error matches McpError::ServerNotFound(s) ==> error@ == ErrorView::ServerNotFound(s@),
        error matches McpError::ServerDisconnected(s) ==> error@ == ErrorView::ServerDisconnected(
            s@,
        ),
        error matches McpError::ToolExecution(s) ==> error@ == ErrorView::ToolExecution(s@),
{
}

/// A decision of the policy, and its written form, stand for themselves.
pub proof fn law_decisions_are_kept_whole(d: PolicyDecisionConfig, w: PolicyWire)
    ensures
        d is Allow ==> d@ is Allow,
        d is Deny ==> d@ is Deny,
        d matches PolicyDecisionConfig::DenyWithReason(reason) ==> d@
            == DecisionView::DenyWithReason(reason@),
        w matches PolicyWire::Word(word) ==> w@ == WireView::Word(word@),
        w matches PolicyWire::Entry { key, reason } ==> w@ == WireView::Entry(key@, reason@),
{
}

/// What is kept of connected servers is kept whole.
pub proof fn law_servers_are_kept_whole(
    records: Seq<ServerRecord>,
    connection: Result<StaticConnection, McpError>,
    o: McpOrchestrator,
    i: int,
)
    ensures
        record_views(records).len() == records.len(),
        0 <= i < records.len() ==> {
            let record = record_views(records)[i];
            &&& record.name == records[i].name@
            &&& record.internal == records[i].internal
            &&& record.has_builtin_type == records[i].has_builtin_type
            &&& records[i].builtin is None ==> record.builtin is None
            &&& records[i].builtin matches Some((t, tool, format)) ==> record.builtin == Some(
                (t, tool@, format),
            )
        },
        connection matches Ok(c) ==> (connection_view(connection) matches Ok(v) && v.client
            == c.client && (c.tools matches Some(list) ==> v.tools == Some(offered_views(list@)))
            && (c.tools is None ==> v.tools is None) && (c.prompts matches Some(list) ==> v.prompts
            == Some(offer_views(list@))) && (c.prompts is None ==> v.prompts is None) && (
        c.resources matches Some(list) ==> v.resources == Some(offer_views(list@))) && (
        c.resources is None ==> v.resources is None)),
        connection matches Err(e) ==> (connection_view(connection) matches Err(v) && v == e@),
        o@.clients == o.static_clients@,
        o@.records == record_views(o.static_records@),
        o@.inventory == o.tool_inventory@,
{
}

/// What is empty holds nothing.
pub proof fn law_empty_state(name: Seq<char>)
    ensures
        empty_inventory().tools.len() == 0,
        empty_inventory().aliases.len() == 0,
        empty_inventory().prompts.len() == 0,
        empty_inventory().resources.len() == 0,
        !no_clients().contains_key(name),
        empty_state().inventory == empty_inventory(),
        empty_state().records.len() == 0,
        !empty_state().clients.contains_key(name),
{
}

/// A call is made in the surroundings of the gateway.
pub proof fn law_surroundings_of_a_call(call: ToolCall, o: McpOrchestrator)
    ensures
        call.surroundings(o).name == (
            call.entry.qualified_name.server_key@,
            call.entry.qualified_name.tool_name@,
        ),
        call.surroundings(o).mode == call.mode,
        call.surroundings(o).clients == o.static_clients@,
        call.surroundings(o).servers == o.config.servers@,
{
}

/// The lists of tools belong to the servers one by one, by their type and label.
pub proof fn law_lists_belong_to_servers(lists: Seq<JsonView>, servers: Seq<BindingView>, i: int)
    requires
        lists_servers(lists, servers),
    ensures
        lists.len() == servers.len(),
        0 <= i < lists.len() ==> lists[i].get_text("type"@) == Some("mcp_list_tools"@)
            && lists[i].get_text("server_label"@) == Some(servers[i].label),
{
}

/// A session has the tools of its servers that they allow, exposes each of them, and
/// shows the servers that are not those of built-in tools.
pub proof fn law_session_exposes_its_tools(session: McpToolSession<'_>, i: int)
    requires
        session.wf(),
    ensures
        ({
            let servers = binding_views(session.all_mcp_servers@);
            let tools = tool_views(session.mcp_tools@);
            &&& tools == session_tools(session.orchestrator.tool_inventory@.tools, servers)
            &&& binding_views(session.mcp_servers@) == visible_servers(
                servers,
                *session.orchestrator,
            )
            &&& session.exposed@.len() == session.mcp_tools@.len()
            &&& 0 <= i < session.exposed@.len() ==> {
                let name = session.exposed@[i].exposed_name@;
                &&& session.exposed@[i].server_key@ == session.mcp_tools@[i].qualified_name.server_key@
                &&& session.exposed@[i].resolved_tool_name@
                    == session.mcp_tools@[i].qualified_name.tool_name@
                &&& session.exposed@[i].response_format == session.mcp_tools@[i].response_format
                &&& crate::session::exposed_get(exposed_views(session.exposed@), name) == Some(
                    session.exposed@[i]@,
                )
            }
        }),
{
    let servers = binding_views(session.all_mcp_servers@);
    let tools = tool_views(session.mcp_tools@);
    assert(exposed_views(session.exposed@).len() == tools.len());
    if 0 <= i < session.exposed@.len() {
        crate::session::law_exposed_lookup(tools, servers, i);
        assert(exposed_views(session.exposed@)[i] == session.exposed@[i]@);
        assert(tools[i] == session.mcp_tools@[i]@);
        crate::laws::tools::law_exposed_tools(tools, servers, i);
    }
}

/// For each server its own tools are listed, under its label.
pub proof fn law_tools_are_listed_by_server(
    tools: Seq<EntryView>,
    servers: Seq<BindingView>,
    list: Seq<(String, Vec<ToolEntry>)>,
    i: int,
)
    requires
        listed_views(list) == tools_listed(tools, servers),
        0 <= i < servers.len(),
    ensures
        list.len() == servers.len(),
        list[i].0@ == servers[i].label,
        tool_views(list[i].1@) == of_server(tools, servers[i].server_key),
{
    let shown = listed_views(list);
    assert(shown.len() == list.len());
    assert(tools_listed(tools, servers).len() == servers.len());
    assert(shown[i] == (list[i].0@, tool_views(list[i].1@)));
    assert(shown[i] == (servers[i].label, of_server(tools, servers[i].server_key)));
}

/// Receiving a response leaves the conversation as it is.
pub proof fn law_same_conversation(a: StreamLoop, b: StreamLoop)
    requires
        a.same_conversation(b),
    ensures
        a.state == b.state,
        a.base_payload == b.base_payload,
        a.tools_json == b.tools_json,
        a.limit == b.limit,
{
}

/// An event that counts as unchanged is sent as the model wrote it, and the end of a
/// stream is marked as clients expect it.
pub proof fn law_unchanged_events(event: JsonView, ctx: StreamingEventContext<'_>, key: Seq<char>)
    requires
        event is Object,
        !is_changed(event, ctx),
    ensures
        client_event(event, ctx).get(key) == event.get(key),
        SSE_DONE@ == "data: [DONE]\n\n"@,
{
}

/// The name of an event is the one that its block gave.
pub proof fn law_event_keeps_its_name(event: SseEventData<'_>)
    ensures
        event.event_name matches Some(n) ==> event.name() == Some(n@),
        event.event_name is None ==> event.name() is None,
{
}

/// The servers of the gateway are those that are connected and those of pooled
/// connections.
pub proof fn law_listed_servers(o: McpOrchestrator, name: Seq<char>, i: int)
    ensures
        o@.clients.contains_key(name) ==> o.is_listed(name),
        0 <= i < o.connection_pool.entries().len() && o.connection_pool.entries()[i].0.0 == name
            ==> o.is_listed(name),
        o.is_listed(name) && !o@.clients.contains_key(name) ==> exists|j: int|
            0 <= j < o.connection_pool.entries().len() && (
            #[trigger] o.connection_pool.entries()[j]).0.0 == name,
{
}

} // verus!

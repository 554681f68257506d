//! Laws of a request over several rounds of responses and calls.

use vstd::prelude::*;

use crate::context::{CallTarget, McpRequestContext};
use crate::error::{ErrorView, McpError};
use crate::execution::{CallOutcome, ToolExecutionInput, ToolExecutionOutput};
use crate::inventory::{
    names_distinct, tool_get, InventoryView, NameView, ResponseFormat, ToolCategory, ToolView,
};
use crate::json::JsonView;
use crate::laws::calls::{
    law_error_object, law_item_event, law_recorded_call, law_resumed_conversation_is_whole,
};
use crate::laws::objects::{law_written_entry, says, wire_text};
use crate::laws::streams::is_of_type;
use crate::laws::words::lemma_words;
use crate::orchestrator::{refreshed, with_dynamic, ConnectionView, McpOrchestrator};
use crate::patch::patched;
use crate::pool::{pooled, KeyView, PoolEntries};
use crate::request::{InputView, ResponsesRequest};
use crate::session::{exposed_get, exposed_views, McpToolSession};
use crate::stream_loop::{
    passed_block, refusal_text, Passthrough, ResponseEnd, StreamAction, StreamFailure, StreamLoop,
};
use crate::streaming::{
    completed_payload, final_response, last_text, listing, sent_for, SseEventData,
    StreamingEventContext, StreamingToolHandler,
};
use crate::text::opt_view;
use crate::tool_loop::{
    item_event, pending, received_arguments, reprefixed, response_calls, resume_payload,
    tool_label, working_text, CallStep, CallView, FunctionCallInProgress, ResponseStep,
    StreamedCallStep, ToolLoop, ToolLoopState,
};
use crate::wire::{json_of_text, text_of_json};

verus! {

broadcast use {law_written_entry, vstd::string::group_string_axioms};

// ---------------------------------------------------------------------------
// Streams
// ---------------------------------------------------------------------------

/// What the client sees of an event that is let through: all that is forwarded of
/// it, in every round, but for the beginnings of later responses. The lists of
/// tools come behind the event that says that the first response is in progress.
/// Of an event that is held back the client sees nothing.
pub proof fn law_client_sees_every_round(
    l: StreamLoop,
    event: SseEventData<'_>,
    handler: StreamingToolHandler,
    ctx: StreamingEventContext<'_>,
    lists: Seq<JsonView>,
    sequence: nat,
)
    ensures
        ({
            let data = event.value();
            let sent = sent_for(event, handler, ctx, sequence);
            let begins = is_of_type(data, "response.created"@);
            let goes_on = is_of_type(data, "response.in_progress"@);
            let forward = l.texts_for(
                event,
                StreamAction::Forward,
                handler,
                ctx,
                lists,
                sequence,
            );
            let listed = goes_on && !l.seen_in_progress && !l.mcp_list_tools_sent;
            &&& l.texts_for(event, StreamAction::Buffer, handler, ctx, lists, sequence).len() == 0
            &&& l.texts_for(event, StreamAction::ExecuteTools, handler, ctx, lists, sequence)
                == sent.0
            &&& !begins && !goes_on ==> forward == sent.0
            &&& l.is_first_iteration && !listed ==> forward == sent.0
            &&& l.is_first_iteration && listed ==> forward == sent.0 + listing(
                lists,
                handler.next_output_index as nat,
                sent.1,
            )
            &&& !l.is_first_iteration && begins ==> forward.len() == 0
            &&& !l.is_first_iteration && goes_on && !listed ==> forward.len() == 0
        }),
{
    lemma_words();
}

/// The items of the next response come behind those of the last one, and it is
/// known to the client under the same identifier.
pub proof fn law_next_response_goes_on_where_the_last_ended(
    before: StreamLoop,
    received: StreamingToolHandler,
    detected: bool,
    end: ResponseEnd,
    behind: StreamLoop,
    next: StreamingToolHandler,
)
    requires
        behind.is_behind(before, received, detected, end),
        behind.is_received_by(next),
    ensures
        next.next_output_index == received.next_output_index,
        received.original_response_id matches Some(id) ==> opt_view(next.original_response_id)
            == Some(id@),
        received.original_response_id is None ==> opt_view(next.original_response_id) == opt_view(
            before.preserved_response_id,
        ),
        next.pending_calls@.len() == 0,
        next.index_map@.len() == 0,
{
}

/// A response with calls is followed by them as long as the limit allows, and one
/// without calls is the last one. Nothing that was recorded is lost.
pub proof fn law_calls_follow_on_a_streamed_response(
    before: StreamLoop,
    received: StreamingToolHandler,
    detected: bool,
    end: ResponseEnd,
    behind: StreamLoop,
)
    requires
        behind.is_behind(before, received, detected, end),
    ensures
        !detected ==> end is Finish,
        detected && before.state.total_calls + received.pending_calls@.len() <= before.limit
            ==> end is MakeCalls,
        detected && before.state.total_calls + received.pending_calls@.len() > before.limit
            ==> end is LimitReached,
        detected ==> behind.state.total_calls == before.state.total_calls
            + received.pending_calls@.len(),
        behind.state.history() == before.state.history(),
        behind.state.items() == before.state.items(),
{
}

/// When a call was made, the model gets it and its result at the end of the
/// conversation, behind all that was there before.
pub proof fn law_result_reaches_the_model(
    before: ToolLoopState,
    after: ToolLoopState,
    call: CallView,
    output: Seq<char>,
    item: JsonView,
    base: JsonView,
    tools: JsonView,
    is_streaming: bool,
)
    requires
        after.has_added(before, call, output, item),
        base is Object,
    ensures
        ({
            let payload = resume_payload(
                base,
                after.history(),
                after.original_input@,
                tools,
                is_streaming,
            );
            let earlier = resume_payload(
                base,
                before.history(),
                before.original_input@,
                tools,
                is_streaming,
            );
            &&& payload.get_items("input"@) matches Some(list)
            &&& earlier.get_items("input"@) matches Some(first)
            &&& list.len() == first.len() + 2
            &&& list.take(first.len() as int) == first
            &&& list[list.len() - 2].get_text("type"@) == Some("function_call"@)
            &&& list[list.len() - 2].get_text("call_id"@) == Some(call.0)
            &&& list[list.len() - 2].get_text("name"@) == Some(call.1)
            &&& list[list.len() - 2].get_text("arguments"@) == Some(call.2)
            &&& list[list.len() - 1].get_text("type"@) == Some("function_call_output"@)
            &&& list[list.len() - 1].get_text("call_id"@) == Some(call.0)
            &&& list[list.len() - 1].get_text("output"@) == Some(output)
            &&& after.items().len() == before.items().len() + 1
            &&& after.items().last() == item
            &&& after.items().drop_last() == before.items()
        }),
{
    lemma_words();
    law_recorded_call(call.0, call.1, call.2, output);
    let payload = resume_payload(base, after.history(), after.original_input@, tools, is_streaming);
    let earlier = resume_payload(
        base,
        before.history(),
        before.original_input@,
        tools,
        is_streaming,
    );
    let list = payload.get_items("input"@)->0;
    let first = earlier.get_items("input"@)->0;
    assert(list.take(first.len() as int) =~= first);
    assert(after.items().drop_last() =~= before.items());
}

/// A stream goes on with the whole conversation, and from then on it is a later
/// round. It cannot go on only where the payload is no object.
pub proof fn law_stream_is_resumed(
    before: StreamLoop,
    after: StreamLoop,
    payload: Option<JsonView>,
    i: int,
)
    requires
        after.is_resumed(before, payload),
    ensures
        before.base_payload@ is Object <==> payload is Some,
        payload matches Some(p) ==> {
            &&& !after.is_first_iteration
            &&& p.get("stream"@) == Some(JsonView::Bool(true))
            &&& p.get("store"@) == Some(JsonView::Bool(false))
            &&& p.get_items("input"@) matches Some(list) && list.len()
                >= before.state.history().len() && (0 <= i < before.state.history().len()
                ==> list[list.len() - before.state.history().len() + i]
                == before.state.history()[i])
        },
        after.state == before.state,
{
    if payload is Some {
        law_resumed_conversation_is_whole(
            before.base_payload@,
            before.state.history(),
            before.state.original_input@,
            before.tools_json@,
            true,
            i,
            Seq::empty(),
        );
    }
}

/// What follows on a call of a streamed response: one without a name is left out,
/// one whose arguments cannot be read is answered with why, and every other is
/// made with its arguments.
pub proof fn law_streamed_call(
    step: StreamedCallStep,
    call: FunctionCallInProgress,
    session: McpToolSession<'_>,
)
    requires
        step.is_for(call, session),
    ensures
        call.name@.len() == 0 <==> step is Skip,
        call.name@.len() > 0 ==> {
            let arguments = if call.arguments_buffer@.len() == 0 {
                "{}"@
            } else {
                call.arguments_buffer@
            };
            match json_of_text(arguments) {
                Ok(value) => step matches StreamedCallStep::Execute { input, response_format }
                    && input.call_id@ == call.call_id@ && input.tool_name@ == call.name@
                    && input.arguments@ == value && response_format == session.format_of(
                    call.name@,
                ),
                Err(e) => step matches StreamedCallStep::Invalid {
                    error,
                    response_format,
                    server_label,
                } && error@.get_text("error"@) == Some("Failed to parse tool arguments: "@ + e)
                    && server_label@ == tool_label(session, call.name@) && response_format
                    == session.format_of(call.name@),
            }
        },
{
    if let Err(e) = json_of_text(received_arguments(call.arguments_buffer@)) {
        law_error_object("Failed to parse tool arguments: "@ + e);
    }
}

/// While a tool works, the client is told so by an event at the place of the call,
/// under its identifier; of an internal tool nothing is told. Gives the data of the
/// text.
pub proof fn law_client_is_told_of_a_working_tool(
    call: FunctionCallInProgress,
    format: ResponseFormat,
    session: McpToolSession<'_>,
    sequence: nat,
) -> (data: JsonView)
    ensures
        session.tool_is_internal(call.name@) || format is Passthrough ==> working_text(
            call,
            format,
            session,
            sequence,
        ) is None,
        !session.tool_is_internal(call.name@) && !(format is Passthrough) ==> ({
            let name = match format {
                ResponseFormat::WebSearchCall => "response.web_search_call.searching"@,
                ResponseFormat::CodeInterpreterCall => "response.code_interpreter_call.interpreting"@,
                _ => "response.file_search_call.searching"@,
            };
            let prefix = match format {
                ResponseFormat::WebSearchCall => "ws_"@,
                ResponseFormat::CodeInterpreterCall => "ci_"@,
                _ => "fs_"@,
            };
            let place = match call.assigned_output_index {
                Some(i) => i,
                None => call.output_index,
            };
            &&& working_text(call, format, session, sequence) == Some(wire_text(name, data))
            &&& says(data, name, sequence, place as nat)
            &&& data.get_text("item_id"@) == Some(reprefixed(call.call_id@, prefix))
        }),
{
    let name = match format {
        ResponseFormat::WebSearchCall => "response.web_search_call.searching"@,
        ResponseFormat::CodeInterpreterCall => "response.code_interpreter_call.interpreting"@,
        _ => "response.file_search_call.searching"@,
    };
    let prefix = match format {
        ResponseFormat::WebSearchCall => "ws_"@,
        ResponseFormat::CodeInterpreterCall => "ci_"@,
        _ => "fs_"@,
    };
    let place = call.client_index() as nat;
    let id = reprefixed(call.call_id@, prefix);
    law_item_event(name, sequence, place, id);
    item_event(name, sequence, place, id)
}

/// The last text of a stream is the completion of its final response. Gives the
/// data of the text.
pub proof fn law_last_text(
    response: JsonView,
    handler: StreamingToolHandler,
    state: ToolLoopState,
    ctx: StreamingEventContext<'_>,
    lists: Seq<JsonView>,
    sequence: nat,
) -> (data: JsonView)
    requires
        response is Object,
        crate::json::unique_keys(response->Object_0),
    ensures
        last_text(response, handler, state, ctx, lists, sequence) == wire_text(
            "response.completed"@,
            data,
        ),
        data.get_text("type"@) == Some("response.completed"@),
        data.get("response"@) matches Some(done) && {
            let whole = final_response(
                response,
                opt_view(handler.original_response_id),
                state,
                ctx,
                lists,
            );
            &&& done.get_text("status"@) == Some("completed"@)
            &&& handler.original_response_id matches Some(id) ==> done.get_text("id"@) == Some(id@)
            &&& done.get("output"@) == whole.get("output"@)
            &&& done.get("tools"@) == whole.get("tools"@)
        },
{
    lemma_words();
    let id = opt_view(handler.original_response_id);
    let whole = final_response(response, id, state, ctx, lists);
    crate::laws::streams::law_final_response(response, id, state, ctx, lists, "id"@);
    crate::laws::streams::law_last_event_carries_the_response(whole, sequence, "id"@);
    crate::laws::streams::law_last_event_carries_the_response(whole, sequence, "output"@);
    crate::laws::streams::law_last_event_carries_the_response(whole, sequence, "tools"@);
    completed_payload(whole, sequence)
}

/// Of a stream without tools each block is kept where the response is stored and
/// sent where the client is still there; it is read on while someone wants it and
/// it is whole; and its response is stored at the end, completed, where it came
/// whole.
pub proof fn law_plain_stream(
    p: Passthrough,
    block: Seq<char>,
    response: JsonView,
    body: ResponsesRequest,
    previous: Option<Seq<char>>,
)
    ensures
        ({
            let passed = passed_block(block, body, previous);
            &&& p.should_store ==> p.passes(block, body, previous).0 == Some(passed)
            &&& !p.should_store ==> p.passes(block, body, previous).0 is None
            &&& p.receiver_connected ==> p.passes(block, body, previous).1 == Some(
                passed + "\n\n"@,
            )
            &&& !p.receiver_connected ==> p.passes(block, body, previous).1 is None
        }),
        p.upstream_failed ==> !p.is_wanted(),
        !p.upstream_failed && p.receiver_connected ==> p.is_wanted(),
        !p.upstream_failed && p.should_store ==> p.is_wanted(),
        !p.receiver_connected && !p.should_store ==> !p.is_wanted(),
        p.stored(None, body, previous) is None,
        p.should_store && !p.upstream_failed ==> p.stored(Some(response), body, previous) == Some(
            patched(response, body, previous),
        ),
        !p.should_store || p.upstream_failed ==> p.stored(Some(response), body, previous) is None,
{
}

/// A plain stream starts with a client that is there and a model whose stream is
/// whole; its response is stored unless the request says otherwise. Of a refusal the
/// client gets the body, or why it could not be read.
pub proof fn law_start_of_a_plain_stream(
    p: Passthrough,
    body: ResponsesRequest,
    text: Seq<char>,
    reason: Seq<char>,
)
    requires
        p.is_start(body),
    ensures
        p.receiver_connected,
        !p.upstream_failed,
        body.store is None ==> p.should_store,
        body.store matches Some(wanted) ==> p.should_store == wanted,
        refusal_text(Ok(text)) == text,
        refusal_text(Err(reason)) == "Failed to read upstream error body: "@ + reason,
{
}

/// A failure is told in one event of the name `error` that holds the message; the
/// end of the stream follows where the gateway itself ends it. Gives the data of the
/// event.
pub proof fn law_failure_is_told_in_one_event(failure: StreamFailure) -> (data: JsonView)
    ensures
        failure.told().len() >= 1,
        failure.told()[0] == wire_text("error"@, data),
        data.get("error"@) matches Some(error) && error.get_text("message"@) == Some(
            failure.message(),
        ),
        failure is LimitReached || failure is NoResume ==> failure.told().len() == 2
            && failure.told()[1] == "data: [DONE]\n\n"@,
        !(failure is LimitReached) && !(failure is NoResume) ==> failure.told().len() == 1,
{
    crate::laws::streams::law_error_event_holds_the_message(failure.message());
    crate::streaming::error_payload(failure.message())
}

/// A stream, and a loop without streaming, start with the request: its input, its
/// tools, its limit and nothing else.
pub proof fn law_start(
    l: StreamLoop,
    t: ToolLoop,
    payload: JsonView,
    input: InputView,
    max_tool_calls: Option<u32>,
)
    requires
        l.is_start(payload, input, max_tool_calls),
        t.is_start(payload, input, max_tool_calls),
    ensures
        l.base_payload@ == payload && t.base_payload@ == payload,
        l.state.original_input@ == input && t.state.original_input@ == input,
        payload.get("tools"@) matches Some(tools) ==> l.tools_json@ == tools && t.tools_json@
            == tools,
        l.limit <= 10 && t.limit <= 10,
        max_tool_calls matches Some(n) ==> n <= 10 ==> l.limit == n && t.limit == n,
        max_tool_calls is None ==> l.limit == 10 && t.limit == 10,
        l.state.history().len() == 0 && t.state.history().len() == 0,
        l.state.items().len() == 0 && t.state.items().len() == 0,
        l.state.total_calls == 0 && t.state.total_calls == 0,
        l.is_first_iteration && !l.mcp_list_tools_sent && !l.seen_in_progress,
        l.next_output_index == 0 && l.preserved_response_id is None,
        t.queue@.len() == 0,
{
}

// ---------------------------------------------------------------------------
// The loop without streaming
// ---------------------------------------------------------------------------

/// The calls of a response wait in their order, and all of them; a response without
/// calls is the last one, and the calls so far are reported in it.
pub proof fn law_calls_of_a_response_wait(
    before: ToolLoop,
    after: ToolLoop,
    response: JsonView,
    step: ResponseStep,
)
    requires
        after.has_taken(before, response, step),
    ensures
        pending(after.queue@) == response_calls(response),
        response_calls(response).len() > 0 <==> step is MakeCalls,
        response_calls(response).len() == 0 ==> (step matches ResponseStep::Finish { report_calls }
            && report_calls == (before.state.total_calls > 0)),
        after.state.history() == before.state.history(),
        after.state.items() == before.state.items(),
{
}

/// The call that waits longest is the next one. It is made with its arguments, or
/// answered with why they cannot be read; where the limit is reached the loop ends.
/// When no call waits, the conversation goes on with all calls and results.
pub proof fn law_next_call(l: ToolLoop, step: CallStep, session: McpToolSession<'_>, i: int)
    requires
        l.is_next(step, session),
    ensures
        ({
            let waiting = pending(l.queue@);
            &&& waiting.len() > 0 && l.state.total_calls >= l.limit <==> step is LimitReached
            &&& waiting.len() > 0 && l.state.total_calls < l.limit ==> match json_of_text(
                waiting[0].2,
            ) {
                Ok(arguments) => step matches CallStep::Execute { call, input } && call@
                    == waiting[0] && input.call_id@ == waiting[0].0 && input.tool_name@
                    == waiting[0].1 && input.arguments@ == arguments,
                Err(e) => step matches CallStep::Invalid {
                    call,
                    output,
                    error,
                    response_format,
                    server_label,
                } && call@ == waiting[0] && output@ == "Invalid tool arguments: "@ + e
                    && error@.get_text("error"@) == Some(output@) && response_format
                    == session.format_of(waiting[0].1) && server_label@ == tool_label(
                    session,
                    waiting[0].1,
                ),
            }
            &&& waiting.len() == 0 <==> step is Resume
            &&& step matches CallStep::Resume(Ok(payload)) ==> {
                &&& payload@.get("stream"@) == Some(JsonView::Bool(false))
                &&& payload@.get_items("input"@) matches Some(list) && list.len()
                    >= l.state.history().len() && (0 <= i < l.state.history().len()
                    ==> list[list.len() - l.state.history().len() + i] == l.state.history()[i])
            }
            &&& step matches CallStep::Resume(Err(_)) ==> !(l.base_payload@ is Object)
        }),
{
    let waiting = pending(l.queue@);
    if waiting.len() == 0 {
        if l.base_payload@ is Object {
            law_resumed_conversation_is_whole(
                l.base_payload@,
                l.state.history(),
                l.state.original_input@,
                l.tools_json@,
                false,
                i,
                Seq::empty(),
            );
        }
    } else if let Err(e) = json_of_text(waiting[0].2) {
        law_error_object("Invalid tool arguments: "@ + e);
    }
}

// ---------------------------------------------------------------------------
// Calls
// ---------------------------------------------------------------------------

/// A request's own server is called before a shared one of the same name; a tool
/// that neither has is not found.
pub proof fn law_own_servers_come_first(
    ctx: McpRequestContext<'_>,
    target: Result<CallTarget, McpError>,
    name: NameView,
)
    requires
        ctx.is_target(target, name),
    ensures
        ({
            let own = tool_get(ctx.dynamic_tools@.tools, name);
            let shared = tool_get(ctx.orchestrator@.inventory.tools, name);
            &&& own is Some && ctx.dynamic_clients@.contains_key(name.0) ==> (
            target matches Ok(CallTarget::Dynamic { entry, client }) && Some(entry@) == own
                && client == ctx.dynamic_clients@[name.0])
            &&& own is Some && !ctx.dynamic_clients@.contains_key(name.0) ==> (
            target matches Err(e) && e@ == ErrorView::ServerNotFound(name.0))
            &&& own is None && shared is Some ==> (target matches Ok(CallTarget::Shared(entry))
                && Some(entry@) == shared)
            &&& own is None && shared is None ==> (target matches Err(e) && e@
                == ErrorView::ToolNotFound(name.0 + ":"@ + name.1))
        }),
{
}

/// A server of a request's own has its client and the tools that it offers; the
/// request's other servers stay.
pub proof fn law_own_server_is_added(
    ctx: McpRequestContext<'_>,
    server: Seq<char>,
    connection: ConnectionView,
    i: int,
    name: NameView,
)
    ensures
        ({
            let after = ctx.with_server(server, connection);
            &&& after.1.contains_key(server) && after.1[server] == connection.client
            &&& name.0 != server ==> after.1.contains_key(name.0)
                == ctx.dynamic_clients@.contains_key(name.0) && tool_get(after.0.tools, name)
                == tool_get(ctx.dynamic_tools@.tools, name)
            &&& connection.tools matches Some(list) ==> 0 <= i < list.len() && (forall|j: int|
                i < j < list.len() ==> (#[trigger] list[j]).name != list[i].name) ==> (tool_get(
                after.0.tools,
                (server, list[i].name),
            ) matches Some(e) && e.tool == list[i] && e.category == ToolCategory::Dynamic)
        }),
{
    if let Some(list) = connection.tools {
        crate::laws::gateway::law_offered_tools_are_found(
            ctx.dynamic_tools@.tools,
            server,
            list,
            ToolCategory::Dynamic,
            i,
            name,
        );
    }
}

/// A connection that a request brought along is pooled under its key, and the tools
/// of its server are found. The tools of the server that gave way are gone.
pub proof fn law_dynamic_connection(
    inventory: InventoryView,
    entries: PoolEntries,
    capacity: nat,
    key: KeyView,
    client: u64,
    offered: Seq<ToolView>,
    i: int,
    name: NameView,
)
    requires
        names_distinct(inventory.tools),
        entries.len() <= capacity,
        capacity > 0,
    ensures
        ({
            let after = with_dynamic(inventory, entries, capacity, key, client, Some(offered));
            &&& pooled(after.1, key) == Some(client)
            &&& after.1.len() <= capacity
            &&& 0 <= i < offered.len() && (forall|j: int|
                i < j < offered.len() ==> (#[trigger] offered[j]).name != offered[i].name) ==> (
            tool_get(after.0.tools, (key.0, offered[i].name)) matches Some(e) && e.tool
                == offered[i] && e.category == ToolCategory::Dynamic)
            &&& name.0 != key.0 && pooled(entries, key) is None && entries.len() == capacity
                && entries.last().0.0 == name.0 ==> tool_get(after.0.tools, name) is None
            &&& name.0 != key.0 && pooled(entries, key) is None && entries.len() < capacity
                ==> tool_get(after.0.tools, name) == tool_get(inventory.tools, name)
        }),
{
    crate::pool::law_pool_finds_what_was_put(entries, capacity, key, client);
    crate::laws::settings::law_pool_is_bounded(entries, capacity, key, client);
    let gone = crate::pool::displaced(entries, capacity, key);
    crate::laws::gateway::law_dynamic_server_brings_its_tools(
        inventory,
        gone,
        key.0,
        Some(offered),
        i,
        name,
    );
}

/// A server of the configuration is reached by its own client, any other by the
/// pooled connection to its address that was used last.
pub proof fn law_route_to_a_server(
    o: McpOrchestrator,
    server: Seq<char>,
    client: Option<u64>,
    i: int,
)
    requires
        o.is_route(server, client),
    ensures
        ({
            let entries = o.connection_pool.entries();
            &&& o@.clients.contains_key(server) ==> client == Some(o@.clients[server])
            &&& !o@.clients.contains_key(server) ==> {
                &&& 0 <= i < entries.len() && entries[i].0.0 == server && (forall|j: int|
                    0 <= j < i ==> (#[trigger] entries[j]).0.0 != server) ==> client == Some(
                    entries[i].1,
                )
                &&& (forall|j: int|
                    0 <= j < entries.len() ==> (#[trigger] entries[j]).0.0 != server)
                    ==> client is None
            }
        }),
{
    crate::laws::settings::law_connection_by_address(o.connection_pool.entries(), server, 0, i);
}

/// After a refresh the tools of a server are those that it lists now; where they
/// could not be listed it has none. Everything else stays.
pub proof fn law_refreshed_tools(
    inventory: InventoryView,
    server: Seq<char>,
    offered: Option<Seq<ToolView>>,
    i: int,
    name: NameView,
)
    requires
        names_distinct(inventory.tools),
    ensures
        ({
            let after = refreshed(inventory, server, offered);
            &&& offered matches Some(list) ==> 0 <= i < list.len() && (forall|j: int|
                i < j < list.len() ==> (#[trigger] list[j]).name != list[i].name) ==> (tool_get(
                after.tools,
                (server, list[i].name),
            ) matches Some(e) && e.tool == list[i] && e.category == ToolCategory::Static)
            &&& name.0 == server && (offered is None || forall|j: int|
                0 <= j < offered->0.len() ==> (#[trigger] offered->0[j]).name != name.1)
                ==> tool_get(after.tools, name) is None
            &&& name.0 != server ==> tool_get(after.tools, name) == tool_get(inventory.tools, name)
            &&& after.aliases == inventory.aliases
            &&& after.prompts == inventory.prompts
            &&& after.resources == inventory.resources
        }),
{
    crate::inventory::law_inventory_clear(inventory.tools, server, name);
    if let Some(list) = offered {
        crate::laws::gateway::law_offered_tools_are_found(
            crate::inventory::without_server(inventory.tools, server),
            server,
            list,
            ToolCategory::Static,
            i,
            name,
        );
    }
}

/// A call by an exposed name is recorded with the server behind the name; one by a
/// name that is not exposed is an error.
pub proof fn law_call_by_an_exposed_name(
    session: McpToolSession<'_>,
    output: ToolExecutionOutput,
    input: ToolExecutionInput,
    outcome: CallOutcome,
)
    requires
        session.is_record(output, input, outcome),
    ensures
        output.call_id@ == input.call_id@,
        output.tool_name@ == input.tool_name@,
        output.arguments_str@ == text_of_json(input.arguments@),
        exposed_get(exposed_views(session.exposed@), input.tool_name@) matches Some(e) ==> {
            let entry = tool_get(
                session.orchestrator@.inventory.tools,
                (e.server_key, e.resolved_tool_name),
            );
            &&& output.server_key@ == e.server_key
            &&& output.server_label@ == e.server_label
            &&& entry is None ==> output.is_error
            &&& entry matches Some(tool) ==> output.response_format == tool.response_format && (
            outcome matches CallOutcome::Answered { content, is_error } ==> output.output@
                == content@ && output.is_error == (is_error == Some(true)))
        },
        exposed_get(exposed_views(session.exposed@), input.tool_name@) is None ==> {
            let message = "Tool '"@ + input.tool_name@
                + "' is not in this session's exposed tool map"@;
            &&& output.server_key@ == "unknown"@
            &&& output.is_error
            &&& opt_view(output.error_message) == Some(message)
            &&& output.output@.get_text("error"@) == Some(message)
        },
{
    law_error_object(
        "Tool '"@ + input.tool_name@ + "' is not in this session's exposed tool map"@,
    );
}

} // verus!

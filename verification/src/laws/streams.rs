//! Laws of streams.

use vstd::prelude::*;

use crate::inventory::ResponseFormat;
use crate::json::JsonView;
use crate::laws::objects::{
    law_listed_entry, law_unlisted_entry, law_written_entry, says, wire_text,
};
use crate::laws::words::lemma_words;
use crate::patch::{
    is_blank, is_internal_output_item, is_internal_tool_value, mcp_tool_value, restored,
    rewritten_block, without_internal_output, without_internal_tools, without_those,
};
use crate::request::{ResponseTool, ResponsesRequest};
use crate::session::{exposed_get, exposed_views, McpToolSession};
use crate::stream_loop::{is_head, passed_block, StreamFailure, StreamHead, StreamLoop};
use crate::streaming::{
    arguments_event, begun_text, call_index, client_event, client_item, client_response,
    completed_payload, error_payload, event_index, event_u64, final_response, forwarded,
    is_kept_back, listing, mapped_index, mcp_tool_values, sent_for, with_held_arguments,
    with_index, with_public_response, with_response_id, with_sequence, Progress, SseEventData,
    StreamingEventContext, StreamingToolHandler,
};
use crate::text::{decimal, has_prefix, opt_view};
use crate::tool_loop::{
    list_tools_events, public_items, received_arguments, reprefixed, text_or_empty, tool_label,
    with_mcp_metadata, FunctionCallInProgress, ToolLoopState,
};
use crate::wire::{json_of_text, text_of_json};

verus! {

broadcast use {law_written_entry, vstd::string::group_string_axioms};

/// In a stream the tools of a response are shown as the MCP servers of the request,
/// in their order.
pub proof fn law_mcp_tools_are_taken_one_by_one(
    a: Seq<ResponseTool>,
    b: Seq<ResponseTool>,
    x: ResponseTool,
)
    ensures
        mcp_tool_values(a + b) == mcp_tool_values(a) + mcp_tool_values(b),
        mcp_tool_values(Seq::<ResponseTool>::empty()) == Seq::<JsonView>::empty(),
        mcp_tool_values(seq![x]) == (match x {
            ResponseTool::Mcp(mcp) => seq![mcp_tool_value(mcp)],
            _ => Seq::empty(),
        }),
    decreases b.len(),
{
    reveal_with_fuel(mcp_tool_values, 2);
    assert(seq![x].drop_last() =~= Seq::<ResponseTool>::empty());
    assert(mcp_tool_values(seq![x]) =~= (match x {
            ResponseTool::Mcp(mcp) => seq![mcp_tool_value(mcp)],
            _ => Seq::empty(),
        }));
    if b.len() == 0 {
        assert(a + b =~= a);
        assert(mcp_tool_values(a) + mcp_tool_values(b) =~= mcp_tool_values(a));
    } else {
        law_mcp_tools_are_taken_one_by_one(a, b.drop_last(), x);
        assert((a + b).drop_last() =~= a + b.drop_last());
        assert(mcp_tool_values(a + b) =~= mcp_tool_values(a) + mcp_tool_values(b));
    }
}

/// Whether the data of an event has the given type.
pub open spec fn is_of_type(data: Option<JsonView>, kind: Seq<char>) -> bool {
    data is Some && data->0.get_text("type"@) == Some(kind)
}

/// In every round, first or later, an event that the handler lets through is
/// forwarded, unless it is the beginning of a later response.
pub proof fn law_events_are_forwarded_in_every_round(l: StreamLoop, data: Option<JsonView>)
    ensures
        !is_of_type(data, "response.created"@) && !is_of_type(data, "response.in_progress"@)
            ==> l.plan_for(data).forward,
        l.is_first_iteration ==> l.plan_for(data).forward,
        !l.is_first_iteration && (is_of_type(data, "response.created"@) || is_of_type(
            data,
            "response.in_progress"@,
        )) ==> !l.plan_for(data).forward,
{
}

/// The tools are listed when the first response is in progress, and then never
/// again.
pub proof fn law_tools_are_listed_when_the_response_is_in_progress(
    l: StreamLoop,
    data: Option<JsonView>,
)
    ensures
        is_of_type(data, "response.in_progress"@) && !l.seen_in_progress && !l.mcp_list_tools_sent
            ==> l.plan_for(data).list_tools,
        l.plan_for(data).list_tools ==> is_of_type(data, "response.in_progress"@)
            && !l.mcp_list_tools_sent && !l.seen_in_progress,
        is_of_type(data, "response.in_progress"@) ==> l.seen_after(data),
        l.seen_in_progress ==> l.seen_after(data),
        l.seen_after(data) ==> l.seen_in_progress || is_of_type(data, "response.in_progress"@),
{
}

/// A plain stream is answered by what the model answered: its events on success,
/// its refusal otherwise, each with the model's status. A model that was not
/// reached is a bad gateway, and the reason is told.
pub proof fn law_answer_of_a_plain_stream(head: StreamHead, sent: Result<u16, Seq<char>>)
    requires
        is_head(head, sent),
    ensures
        sent matches Ok(code) ==> {
            &&& 200 <= code < 300 ==> head == (StreamHead::Events { status: code, recorded: code })
            &&& (100 <= code < 200 || 300 <= code < 1000) ==> head == (StreamHead::Refused {
                status: code,
                recorded: code,
            })
            &&& (code < 100 || code >= 1000) ==> head == (StreamHead::Refused {
                status: 500,
                recorded: code,
            })
        },
        sent matches Err(reason) ==> (head matches StreamHead::Unreached {
            status,
            recorded,
            message,
        } && status == 502 && recorded == 502 && message@ == "Failed to forward request to OpenAI: "@
            + reason),
{
}

/// The client is told why a stream ends early. Only where the gateway itself
/// ends it, the end is marked.
pub proof fn law_client_is_told_why(failure: StreamFailure)
    ensures
        failure matches StreamFailure::Request(e) ==> failure.message() == e@
            && !failure.ends_in_form(),
        failure matches StreamFailure::Upstream { status, body } ==> failure.message()
            == "Upstream error "@ + status@ + ": "@ + body@ && !failure.ends_in_form(),
        failure matches StreamFailure::Broken(e) ==> failure.message() == "Stream error: "@ + e@
            && !failure.ends_in_form(),
        failure is LimitReached ==> failure.message() == "Exceeded max_tool_calls limit"@
            && failure.ends_in_form(),
        failure matches StreamFailure::NoResume(e) ==> failure.message()
            == "Failed to build resume payload: "@ + e@ && failure.ends_in_form(),
{
}

/// An error event holds the message.
pub proof fn law_error_event_holds_the_message(message: Seq<char>)
    ensures
        error_payload(message).get("error"@) matches Some(error) && error.get_text("message"@)
            == Some(message),
{
    lemma_words();
    let inner = seq![("message"@, JsonView::Text(message))];
    law_listed_entry(inner, 0);
    law_listed_entry(error_payload(message)->Object_0, 0);
}

/// A block of a plain stream is passed on as it came, unless its response is
/// completed.
pub proof fn law_blocks_are_passed_on(
    block: Seq<char>,
    body: ResponsesRequest,
    previous: Option<Seq<char>>,
)
    ensures
        rewritten_block(block, body, previous) is None ==> passed_block(block, body, previous)
            == block,
        rewritten_block(block, body, previous) matches Some(done) ==> passed_block(
            block,
            body,
            previous,
        ) == done,
{
}

/// A place of the model's output has the place for the client with which it was
/// first entered.
pub proof fn law_place_for_the_client(map: Seq<(usize, usize)>, index: usize, from: int, j: int)
    requires
        0 <= from <= map.len(),
    ensures
        from <= j < map.len() && map[j].0 == index && (forall|k: int|
            from <= k < j ==> (#[trigger] map[k]).0 != index) ==> mapped_index(map, index, from)
            == Some(map[j].1),
        (forall|k: int| from <= k < map.len() ==> (#[trigger] map[k]).0 != index) ==> mapped_index(
            map,
            index,
            from,
        ) is None,
    decreases map.len() - from,
{
    if from < map.len() {
        law_place_for_the_client(map, index, from + 1, j);
        assert(map[from] == map[from]);
    }
}

/// A call in progress is found by its place in the model's output.
pub proof fn law_call_at_a_place(calls: Seq<FunctionCallInProgress>, index: usize, from: int, j: int)
    requires
        0 <= from <= calls.len(),
    ensures
        from <= j < calls.len() && calls[j].output_index == index && (forall|k: int|
            from <= k < j ==> (#[trigger] calls[k]).output_index != index) ==> call_index(
            calls,
            index,
            from,
        ) == j,
        (forall|k: int| from <= k < calls.len() ==> (#[trigger] calls[k]).output_index != index)
            ==> call_index(calls, index, from) == calls.len(),
        from <= call_index(calls, index, from) <= calls.len(),
    decreases calls.len() - from,
{
    if from < calls.len() {
        law_call_at_a_place(calls, index, from + 1, j);
        assert(calls[from] == calls[from]);
    }
}

/// The place that an event names is the number under `output_index`.
pub proof fn law_place_of_an_event(event: JsonView, n: usize)
    ensures
        event.get("output_index"@) == Some(JsonView::Number(decimal(n as nat))) ==> event_index(
            event,
        ) == Some(n),
        event.get("output_index"@) is None ==> event_index(event) is None,
        event.get("output_index"@) matches Some(v) ==> !(v is Number) ==> event_index(event) is None,
{
    crate::text::lemma_decimal_value(n as nat);
}

/// A call of a tool of the session is shown to the client as a call of its
/// server: its type and, for an MCP call, the label of its server are put in, and
/// its identifier gets the prefix of its type. Every other entry stays, and so
/// does every other item.
pub proof fn law_call_is_shown_as_one_of_its_server(
    item: JsonView,
    session: McpToolSession<'_>,
    key: Seq<char>,
)
    requires
        item is Object,
    ensures
        ({
            let name = match item.get_text("name"@) {
                Some(n) => n,
                None => Seq::empty(),
            };
            let is_call = item.get_text("type"@) == Some("function_call"@) || item.get_text(
                "type"@,
            ) == Some("function_tool_call"@);
            let shown = client_item(item, Some(&session));
            &&& client_item(item, None) == item
            &&& if is_call && exposed_get(exposed_views(session.exposed@), name) is Some {
                let is_search = exposed_get(
                    exposed_views(session.exposed@),
                    name,
                )->0.response_format == ResponseFormat::WebSearchCall;
                &&& is_search ==> shown.get_text("type"@) == Some("web_search_call"@)
                &&& is_search ==> shown.get("server_label"@) == item.get("server_label"@)
                &&& !is_search ==> shown.get_text("type"@) == Some("mcp_call"@)
                &&& !is_search ==> shown.get_text("server_label"@) == Some(
                    tool_label(session, name),
                )
                &&& item.get_text("id"@) matches Some(id) ==> has_prefix(id, "fc_"@)
                    ==> shown.get_text("id"@) == Some(
                    (if is_search {
                        "ws_"@
                    } else {
                        "mcp_"@
                    }) + id.skip(3),
                )
                &&& item.get_text("id"@) matches Some(id) ==> !has_prefix(id, "fc_"@)
                    ==> shown.get("id"@) == item.get("id"@)
                &&& item.get_text("id"@) is None ==> shown.get("id"@) == item.get("id"@)
                &&& key != "type"@ && key != "server_label"@ && key != "id"@ ==> shown.get(key)
                    == item.get(key)
            } else {
                shown == item
            }
        }),
{
    lemma_words();
    reveal_strlit("fc_");
}

/// Whether the arguments of a call are released before an event: it says that
/// they are complete, and names the place of a call in progress.
pub open spec fn releases_arguments(
    name: Option<Seq<char>>,
    event: JsonView,
    handler: StreamingToolHandler,
) -> bool {
    &&& name == Some("response.function_call_arguments.done"@)
    &&& event_index(event) is Some
    &&& call_index(handler.pending_calls@, event_index(event)->0, 0) < handler.pending_calls@.len()
}

/// Whether an event is forwarded at all: pieces of arguments are gathered, the
/// end of a response is told when the loop is over, and what is internal is kept
/// back.
pub open spec fn is_forwarded(
    name: Option<Seq<char>>,
    event: JsonView,
    handler: StreamingToolHandler,
    ctx: StreamingEventContext<'_>,
) -> bool {
    &&& name != Some("response.function_call_arguments.delta"@)
    &&& name != Some("response.completed"@)
    &&& name is None ==> event.get_text("type"@) != Some("response.completed"@)
    &&& !is_kept_back(name, event, handler, ctx.session)
}

/// An event that is held back sends nothing and uses no number.
pub proof fn law_held_back_events_send_nothing(
    name: Option<Seq<char>>,
    event: JsonView,
    handler: StreamingToolHandler,
    ctx: StreamingEventContext<'_>,
    sequence: nat,
)
    requires
        !is_forwarded(name, event, handler, ctx),
    ensures
        forwarded(name, event, handler, ctx, sequence).0.len() == 0,
        forwarded(name, event, handler, ctx, sequence).1 == sequence,
{
}

/// Every other event is forwarded under the client's name for it. Its place is the
/// one that the client knows, its number is the next one, and a call that it
/// carries is shown as one of its server; where it says that the arguments of a
/// call are complete, they are put in. Its other entries stay as the model wrote
/// them. Gives the data of the text that is sent for it.
pub proof fn law_forwarded_event(
    name: Option<Seq<char>>,
    event: JsonView,
    handler: StreamingToolHandler,
    ctx: StreamingEventContext<'_>,
    sequence: nat,
    key: Seq<char>,
) -> (data: JsonView)
    requires
        event is Object,
        is_forwarded(name, event, handler, ctx),
    ensures
        ({
            let texts = forwarded(name, event, handler, ctx, sequence).0;
            let released = releases_arguments(name, event, handler);
            let at: int = if released {
                1
            } else {
                0
            };
            &&& data is Object
            &&& texts.len() > at
            &&& name matches Some(n) ==> texts[at] == wire_text(
                if n == "response.function_call_arguments.done"@ {
                    "response.mcp_call_arguments.done"@
                } else {
                    n
                },
                data,
            )
            &&& name is None ==> texts[at] == "data: "@ + text_of_json(data) + "\n\n"@
            // Its place.
            &&& event_index(event) matches Some(i) ==> (mapped_index(
                handler.index_map@,
                i,
                0,
            ) matches Some(m) ==> data.get("output_index"@) == Some(
                JsonView::Number(decimal(m as nat)),
            ))
            &&& event_index(event) matches Some(i) ==> mapped_index(handler.index_map@, i, 0) is None
                ==> data.get("output_index"@) == (if name == Some(
                "response.function_call_arguments.done"@,
            ) {
                Some(JsonView::Number(decimal(i as nat)))
            } else {
                event.get("output_index"@)
            })
            &&& event_index(event) is None ==> data.get("output_index"@) == event.get(
                "output_index"@,
            )
            // Its number.
            &&& event.get("sequence_number"@) is Some ==> data.get("sequence_number"@) == Some(
                JsonView::Number(decimal((sequence + at) as nat)),
            )
            &&& event.get("sequence_number"@) is None ==> data.get("sequence_number"@) is None
            // Its type.
            &&& event.get_text("type"@) == Some("response.function_call_arguments.done"@)
                ==> data.get_text("type"@) == Some("response.mcp_call_arguments.done"@)
            &&& event.get_text("type"@) != Some("response.function_call_arguments.done"@)
                ==> data.get("type"@) == event.get("type"@)
            // Its item.
            &&& (event.get_text("type"@) == Some("response.output_item.added"@) || event.get_text(
                "type"@,
            ) == Some("response.output_item.done"@)) ==> (event.get("item"@) matches Some(item)
                ==> data.get("item"@) == Some(client_item(item, ctx.session)))
            &&& event.get_text("type"@) != Some("response.output_item.added"@) && event.get_text(
                "type"@,
            ) != Some("response.output_item.done"@) ==> data.get("item"@) == event.get("item"@)
            &&& event.get("item"@) is None ==> data.get("item"@) is None
            &&& event.get_text("type"@) != Some("response.function_call_arguments.done"@)
                ==> data.get("item_id"@) == event.get("item_id"@)
            &&& event.get_text("type"@) == Some("response.function_call_arguments.done"@) ==> (
            event.get_text("item_id"@) matches Some(id) ==> data.get_text("item_id"@) == Some(
                reprefixed(id, "mcp_"@),
            ))
            // Its arguments.
            &&& released ==> data.get_text("arguments"@) == Some(
                received_arguments(
                    handler.pending_calls@[call_index(
                        handler.pending_calls@,
                        event_index(event)->0,
                        0,
                    )].arguments_buffer@,
                ),
            )
            &&& !released ==> data.get("arguments"@) == event.get("arguments"@)
            // Its response.
            &&& event.get("response"@) is None ==> data.get("response"@) is None
            &&& event.get("response"@) matches Some(given) ==> !(given is Object) ==> data.get(
                "response"@,
            ) == Some(given)
            &&& event.get("response"@) matches Some(given) ==> given is Object ==> (data.get(
                "response"@,
            ) matches Some(shown) && shown is Object && {
                &&& handler.original_response_id matches Some(id) ==> shown.get_text("id"@) == Some(
                    id@,
                )
                &&& handler.original_response_id is None ==> shown.get("id"@) == given.get("id"@)
                &&& key != "id"@ && key != "store"@ && key != "previous_response_id"@ && key
                    != "tools"@ && key != "tool_choice"@ && key != "output"@ ==> shown.get(key)
                    == given.get(key)
                &&& shown.get("output"@) == without_internal_output(given, ctx.session).get(
                    "output"@,
                )
                &&& if is_of_type(Some(event), "response.created"@) || is_of_type(
                    Some(event),
                    "response.in_progress"@,
                ) || is_of_type(Some(event), "response.completed"@) {
                    let asked = client_response(given, *ctx.original_request, ctx.previous());
                    &&& shown.get("store"@) == asked.get("store"@)
                    &&& shown.get("previous_response_id"@) == asked.get("previous_response_id"@)
                    &&& shown.get("tool_choice"@) == asked.get("tool_choice"@)
                    &&& shown.get("tools"@) == without_internal_tools(asked, ctx.session).get(
                        "tools"@,
                    )
                } else {
                    &&& shown.get("store"@) == given.get("store"@)
                    &&& shown.get("previous_response_id"@) == given.get("previous_response_id"@)
                    &&& shown.get("tool_choice"@) == given.get("tool_choice"@)
                    &&& shown.get("tools"@) == without_internal_tools(given, ctx.session).get(
                        "tools"@,
                    )
                }
            })
            // The rest.
            &&& key != "output_index"@ && key != "sequence_number"@ && key != "type"@ && key
                != "item"@ && key != "item_id"@ && key != "arguments"@ && key != "response"@
                ==> data.get(key) == event.get(key)
        }),
{
    lemma_words();
    reveal_strlit("fc_");
    let first = if name == Some("response.function_call_arguments.done"@) {
        with_held_arguments(event, handler, sequence)
    } else {
        Progress { event, index: None, sent: Seq::empty(), sequence }
    };
    let index = match first.index {
        Some(i) => Some(i),
        None => match event_index(first.event) {
            Some(i) => mapped_index(handler.index_map@, i, 0),
            None => None,
        },
    };
    let placed = with_index(first.event, index);
    let itemed = client_event(placed, ctx);
    let public = with_public_response(itemed, ctx.session);
    let known = with_response_id(public, opt_view(handler.original_response_id));
    let data = with_sequence(known, first.sequence);
    if event_index(event) is Some {
        law_call_at_a_place(handler.pending_calls@, event_index(event)->0, 0, 0);
    }
    lemma_event_entry(placed, ctx, key);
    lemma_event_entry(placed, ctx, "output_index"@);
    lemma_event_entry(placed, ctx, "sequence_number"@);
    lemma_event_entry(placed, ctx, "type"@);
    lemma_event_entry(placed, ctx, "item"@);
    lemma_event_entry(placed, ctx, "item_id"@);
    lemma_event_entry(placed, ctx, "arguments"@);
    lemma_event_entry(placed, ctx, "response"@);
    if event.get("response"@) is Some && event.get("response"@)->0 is Object {
        let given = event.get("response"@)->0;
        lemma_answered_entry(given, ctx, key);
        lemma_answered_entry(given, ctx, "id"@);
        lemma_answered_entry(given, ctx, "output"@);
    }
    data
}

/// The response that an event carries, as the client sees it, without the
/// identifier.
spec fn shown_response(given: JsonView, carries: bool, ctx: StreamingEventContext<'_>) -> JsonView {
    let answered = if carries {
        client_response(given, *ctx.original_request, ctx.previous())
    } else {
        given
    };
    without_internal_tools(without_internal_output(answered, ctx.session), ctx.session)
}

proof fn lemma_answered_entry(given: JsonView, ctx: StreamingEventContext<'_>, key: Seq<char>)
    requires
        given is Object,
    ensures
        ({
            let a = shown_response(given, true, ctx);
            let b = shown_response(given, false, ctx);
            &&& a is Object
            &&& b is Object
            &&& key != "store"@ && key != "previous_response_id"@ && key != "tools"@ && key
                != "tool_choice"@ && key != "output"@ ==> a.get(key) == given.get(key) && b.get(key)
                == given.get(key)
            &&& a.get("output"@) == without_internal_output(given, ctx.session).get("output"@)
            &&& b.get("output"@) == without_internal_output(given, ctx.session).get("output"@)
            &&& ({
                let asked = client_response(given, *ctx.original_request, ctx.previous());
                &&& a.get("store"@) == asked.get("store"@)
                &&& a.get("previous_response_id"@) == asked.get("previous_response_id"@)
                &&& a.get("tool_choice"@) == asked.get("tool_choice"@)
                &&& a.get("tools"@) == without_internal_tools(asked, ctx.session).get("tools"@)
                &&& b.get("store"@) == given.get("store"@)
                &&& b.get("previous_response_id"@) == given.get("previous_response_id"@)
                &&& b.get("tool_choice"@) == given.get("tool_choice"@)
                &&& b.get("tools"@) == without_internal_tools(given, ctx.session).get("tools"@)
            })
        }),
{
    lemma_words();
    let answered = client_response(given, *ctx.original_request, ctx.previous());
    assert(answered is Object);
    assert(answered.get("output"@) == given.get("output"@));
}

proof fn lemma_event_entry(event: JsonView, ctx: StreamingEventContext<'_>, key: Seq<char>)
    requires
        event is Object,
    ensures
        ({
            let kind = event.get_text("type"@);
            let carries = kind == Some("response.created"@) || kind == Some(
                "response.in_progress"@,
            ) || kind == Some("response.completed"@);
            let shown = with_public_response(client_event(event, ctx), ctx.session);
            &&& shown is Object
            &&& shown.get(key) == (if key == "response"@ {
                match event.get("response"@) {
                    Some(given) => if given is Object {
                        Some(shown_response(given, carries, ctx))
                    } else {
                        Some(given)
                    },
                    None => None,
                }
            } else if key == "item"@ && (kind == Some("response.output_item.added"@) || kind
                == Some("response.output_item.done"@)) {
                match event.get("item"@) {
                    Some(item) => Some(client_item(item, ctx.session)),
                    None => None,
                }
            } else if key == "type"@ && kind == Some("response.function_call_arguments.done"@) {
                Some(JsonView::Text("response.mcp_call_arguments.done"@))
            } else if key == "item_id"@ && kind == Some("response.function_call_arguments.done"@) {
                match event.get_text("item_id"@) {
                    Some(id) => if has_prefix(id, "fc_"@) {
                        Some(JsonView::Text(reprefixed(id, "mcp_"@)))
                    } else {
                        event.get("item_id"@)
                    },
                    None => event.get("item_id"@),
                }
            } else {
                event.get(key)
            })
        }),
{
    lemma_words();
    reveal_strlit("");
}

/// The response that an event carries says whether it is stored and which response
/// it follows. Where the request named MCP servers, its tools are shown as those
/// servers.
pub proof fn law_response_in_an_event(
    response: JsonView,
    body: ResponsesRequest,
    previous: Option<Seq<char>>,
    key: Seq<char>,
)
    requires
        response is Object,
    ensures
        ({
            let shown = client_response(response, body, previous);
            let servers = match body.tools {
                Some(tools) => mcp_tool_values(tools@),
                None => Seq::empty(),
            };
            let masked = response.get("tools"@) is Some && servers.len() > 0;
            &&& shown is Object
            &&& shown.get("store"@) == Some(JsonView::Bool(body.store != Some(false)))
            &&& shown.get("previous_response_id"@) == (if previous is Some && is_blank(
                response.get("previous_response_id"@),
            ) {
                Some(JsonView::Text(previous->0))
            } else {
                response.get("previous_response_id"@)
            })
            &&& masked ==> shown.get_items("tools"@) == Some(servers)
            &&& !masked ==> shown.get("tools"@) == response.get("tools"@)
            &&& shown.get("tool_choice"@) == (if masked && response.get("tool_choice"@) is None {
                Some(JsonView::Text("auto"@))
            } else {
                response.get("tool_choice"@)
            })
            &&& key != "store"@ && key != "previous_response_id"@ && key != "tools"@ && key
                != "tool_choice"@ ==> shown.get(key) == response.get(key)
        }),
{
    lemma_words();
}

/// An event whose data cannot be read is passed on as it came; of pieces of
/// arguments nothing is sent; every other event is forwarded.
pub proof fn law_unreadable_events_are_passed_on(
    event: SseEventData<'_>,
    handler: StreamingToolHandler,
    ctx: StreamingEventContext<'_>,
    sequence: nat,
)
    ensures
        ({
            let sent = sent_for(event, handler, ctx, sequence);
            let pieces = event.event_name is Some && event.event_name->0@
                == "response.function_call_arguments.delta"@;
            let name = match event.event_name {
                Some(n) => Some(n@),
                None => None,
            };
            &&& pieces ==> sent.0.len() == 0 && sent.1 == sequence
            &&& !pieces ==> match json_of_text(event.data@) {
                Err(_) => sent.0.len() == 1 && sent.0[0] == event.raw_block@ + "\n\n"@ && sent.1
                    == sequence,
                Ok(data) => sent == forwarded(name, data, handler, ctx, sequence),
            }
            &&& match json_of_text(event.data@) {
                Ok(data) => event.value() == Some(data),
                Err(_) => event.value() is None,
            }
        }),
{
}

/// Whether an item is a call of a tool of an internal server, or otherwise internal.
pub open spec fn is_hidden_item(item: JsonView, session: McpToolSession<'_>) -> bool {
    let name = match item.get_text("name"@) {
        Some(name) => name,
        None => Seq::empty(),
    };
    ||| is_internal_output_item(item, Some(&session))
    ||| (item.get_text("type"@) == Some("function_call"@) || item.get_text("type"@) == Some(
        "function_tool_call"@,
    )) && session.tool_is_internal(name)
}

/// What is internal is kept back where there is a session, and nothing else: an item
/// that lists the tools of an internal server or calls one, and the arguments of
/// such a call.
pub proof fn law_what_is_kept_back(
    name: Option<Seq<char>>,
    event: JsonView,
    handler: StreamingToolHandler,
    session: McpToolSession<'_>,
)
    ensures
        !is_kept_back(name, event, handler, None),
        ({
            let kind = match name {
                Some(n) => Some(n),
                None => event.get_text("type"@),
            };
            let about_arguments = kind == Some("response.function_call_arguments.delta"@) || kind
                == Some("response.function_call_arguments.done"@);
            let hides_item = event.get("item"@) is Some && is_hidden_item(
                event.get("item"@)->0,
                session,
            );
            let at = call_index(handler.pending_calls@, event_index(event)->0, 0);
            let hides_arguments = about_arguments && event_index(event) is Some && at
                < handler.pending_calls@.len() && session.tool_is_internal(
                handler.pending_calls@[at].name@,
            );
            is_kept_back(name, event, handler, Some(&session)) <==> hides_item || hides_arguments
        }),
{
    lemma_words();
    reveal_strlit("");
}

/// The event by which the client is told that an item of a type has begun.
pub open spec fn beginning_of(kind: Option<Seq<char>>) -> Option<Seq<char>> {
    if kind == Some("mcp_call"@) {
        Some("response.mcp_call.in_progress"@)
    } else if kind == Some("web_search_call"@) {
        Some("response.web_search_call.in_progress"@)
    } else if kind == Some("code_interpreter_call"@) {
        Some("response.code_interpreter_call.in_progress"@)
    } else if kind == Some("file_search_call"@) {
        Some("response.file_search_call.in_progress"@)
    } else {
        None
    }
}

/// When the item of a tool call was added, the client is told that the call has
/// begun, by the event of the item's type, at its place and with its identifier.
/// Gives the data of the text.
pub proof fn law_beginning_of_a_call_is_told(event: JsonView, sequence: nat) -> (data: JsonView)
    ensures
        event.get("item"@) is None ==> begun_text(event, sequence) is None,
        event.get("item"@) matches Some(item) ==> ({
            let place = match event.get("output_index"@) {
                Some(v) => v.as_u64(),
                None => None,
            };
            match (beginning_of(item.get_text("type"@)), item.get_text("id"@), place) {
                (Some(name), Some(id), Some(index)) => {
                    &&& begun_text(event, sequence) == Some(wire_text(name, data))
                    &&& says(data, name, sequence, index as nat)
                    &&& data.get_text("item_id"@) == Some(id)
                },
                _ => begun_text(event, sequence) is None,
            }
        }),
{
    lemma_words();
    reveal_strlit("");
    if event.get("item"@) is Some {
        let item = event.get("item"@)->0;
        let place = event_u64(event, "output_index"@);
        let name = beginning_of(item.get_text("type"@));
        if name is Some && item.get_text("id"@) is Some && place is Some {
            crate::laws::calls::law_item_event(
                name->0,
                sequence,
                place->0 as nat,
                item.get_text("id"@)->0,
            );
            crate::tool_loop::item_event(
                name->0,
                sequence,
                place->0 as nat,
                item.get_text("id"@)->0,
            )
        } else {
            JsonView::Null
        }
    } else {
        JsonView::Null
    }
}

/// The held-back arguments of a call are released in one piece, under the client's
/// name for it, at the place and with the identifier that the client knows. Gives
/// the data of the text.
pub proof fn law_held_arguments_are_released(
    event: JsonView,
    handler: StreamingToolHandler,
    ctx: StreamingEventContext<'_>,
    sequence: nat,
) -> (data: JsonView)
    requires
        event is Object,
        is_forwarded(Some("response.function_call_arguments.done"@), event, handler, ctx),
        releases_arguments(Some("response.function_call_arguments.done"@), event, handler),
    ensures
        ({
            let name = Some("response.function_call_arguments.done"@);
            let texts = forwarded(name, event, handler, ctx, sequence).0;
            let i = event_index(event)->0;
            let call = handler.pending_calls@[call_index(handler.pending_calls@, i, 0)];
            let place = match mapped_index(handler.index_map@, i, 0) {
                Some(m) => m,
                None => i,
            };
            &&& texts.len() == 2
            &&& texts[0] == wire_text("response.mcp_call_arguments.delta"@, data)
            &&& says(data, "response.mcp_call_arguments.delta"@, sequence, place as nat)
            &&& data.get_text("delta"@) == Some(received_arguments(call.arguments_buffer@))
            &&& data.get_text("item_id"@) == Some(
                reprefixed(
                    match event.get_text("item_id"@) {
                        Some(id) => id,
                        None => Seq::empty(),
                    },
                    "mcp_"@,
                ),
            )
            &&& call.last_obfuscation matches Some(o) ==> data.get_text("obfuscation"@) == Some(o@)
            &&& call.last_obfuscation is None ==> data.get("obfuscation"@) == event.get(
                "obfuscation"@,
            )
        }),
{
    lemma_words();
    let i = event_index(event)->0;
    law_call_at_a_place(handler.pending_calls@, i, 0, 0);
    let call = handler.pending_calls@[call_index(handler.pending_calls@, i, 0)];
    let place = match mapped_index(handler.index_map@, i, 0) {
        Some(m) => m,
        None => i,
    };
    let full = event.set("arguments"@, JsonView::Text(received_arguments(call.arguments_buffer@)));
    let data = arguments_event(call, full, place as nat, sequence);
    lemma_arguments_event(call, full, place as nat, sequence);
    assert(full.get_text("item_id"@) == event.get_text("item_id"@));
    assert(full.get("obfuscation"@) == event.get("obfuscation"@));
    data
}

proof fn lemma_arguments_event(
    call: FunctionCallInProgress,
    event: JsonView,
    index: nat,
    sequence: nat,
)
    ensures
        ({
            let data = arguments_event(call, event, index, sequence);
            &&& says(data, "response.mcp_call_arguments.delta"@, sequence, index)
            &&& data.get_text("delta"@) == Some(received_arguments(call.arguments_buffer@))
            &&& data.get_text("item_id"@) == Some(
                reprefixed(text_or_empty(event, "item_id"@), "mcp_"@),
            )
            &&& call.last_obfuscation matches Some(o) ==> data.get_text("obfuscation"@) == Some(o@)
            &&& call.last_obfuscation is None ==> data.get("obfuscation"@) == event.get(
                "obfuscation"@,
            )
        }),
{
    lemma_words();
    let entries = seq![
        ("type"@, JsonView::Text("response.mcp_call_arguments.delta"@)),
        ("sequence_number"@, JsonView::Number(decimal(sequence))),
        ("output_index"@, JsonView::Number(decimal(index))),
        ("item_id"@, JsonView::Text(reprefixed(text_or_empty(event, "item_id"@), "mcp_"@))),
        ("delta"@, JsonView::Text(received_arguments(call.arguments_buffer@))),
    ];
    law_listed_entry(entries, 0);
    law_listed_entry(entries, 1);
    law_listed_entry(entries, 2);
    law_listed_entry(entries, 3);
    law_listed_entry(entries, 4);
    law_unlisted_entry(entries, "obfuscation"@);
    assert(crate::streaming::held_arguments(call) == received_arguments(call.arguments_buffer@));
}

/// The numbers of the texts that are sent for an event are given out in a row:
/// one for released arguments, one for the event where it is numbered, and one
/// for the beginning of a call.
pub proof fn law_numbers_are_given_out_in_a_row(
    name: Option<Seq<char>>,
    event: JsonView,
    handler: StreamingToolHandler,
    ctx: StreamingEventContext<'_>,
    sequence: nat,
) -> (data: JsonView)
    requires
        event is Object,
        is_forwarded(name, event, handler, ctx),
    ensures
        ({
            let sent = forwarded(name, event, handler, ctx, sequence);
            let released: nat = if releases_arguments(name, event, handler) {
                1
            } else {
                0
            };
            let numbered: nat = if event.get("sequence_number"@) is Some {
                1
            } else {
                0
            };
            let text = begun_text(data, sequence + released + numbered);
            let begun = name == Some("response.output_item.added"@) && text is Some;
            &&& name matches Some(n) ==> sent.0[released as int] == wire_text(
                if n == "response.function_call_arguments.done"@ {
                    "response.mcp_call_arguments.done"@
                } else {
                    n
                },
                data,
            )
            &&& !begun ==> sent.0.len() == released + 1 && sent.1 == sequence + released + numbered
            &&& begun ==> sent.0.len() == released + 2 && sent.1 == sequence + released + numbered
                + 1 && sent.0[released as int + 1] == text->0
        }),
{
    lemma_words();
    let data = law_forwarded_event(name, event, handler, ctx, sequence, Seq::empty());
    if event_index(event) is Some {
        law_call_at_a_place(handler.pending_calls@, event_index(event)->0, 0, 0);
    }
    let first = if name == Some("response.function_call_arguments.done"@) {
        with_held_arguments(event, handler, sequence)
    } else {
        Progress { event, index: None, sent: Seq::empty(), sequence }
    };
    let index = match first.index {
        Some(i) => Some(i),
        None => match event_index(first.event) {
            Some(i) => mapped_index(handler.index_map@, i, 0),
            None => None,
        },
    };
    let placed = with_index(first.event, index);
    let shown = with_response_id(
        with_public_response(client_event(placed, ctx), ctx.session),
        opt_view(handler.original_response_id),
    );
    lemma_event_entry(placed, ctx, "sequence_number"@);
    with_sequence(shown, first.sequence)
}

/// The last event of a stream carries the whole response, marked as completed.
pub proof fn law_last_event_carries_the_response(response: JsonView, sequence: nat, key: Seq<char>)
    requires
        response is Object,
    ensures
        ({
            let data = completed_payload(response, sequence);
            &&& data.get_text("type"@) == Some("response.completed"@)
            &&& data.get("sequence_number"@) == Some(JsonView::Number(decimal(sequence)))
            &&& data.get("response"@) matches Some(shown) && shown.get_text("status"@) == Some(
                "completed"@,
            ) && (key != "status"@ ==> shown.get(key) == response.get(key))
        }),
{
    lemma_words();
    let entries = completed_payload(response, sequence)->Object_0;
    law_listed_entry(entries, 0);
    law_listed_entry(entries, 1);
    law_listed_entry(entries, 2);
}

/// The tools of the servers are listed one after the other, each at the next place
/// and under the next four numbers.
pub proof fn law_servers_are_listed_in_a_row(
    items: Seq<JsonView>,
    x: JsonView,
    index: nat,
    sequence: nat,
)
    ensures
        listing(Seq::empty(), index, sequence).len() == 0,
        listing(items.push(x), index, sequence) == listing(items, index, sequence)
            + list_tools_events(x, index + items.len(), sequence + 4 * items.len()),
        listing(items, index, sequence).len() == 4 * items.len(),
    decreases items.len(),
{
    assert(items.push(x).drop_last() =~= items);
    if items.len() > 0 {
        law_servers_are_listed_in_a_row(items.drop_last(), items.last(), index, sequence);
        assert(items.drop_last().push(items.last()) =~= items);
    }
}

/// The final response keeps the identifier that the client knows. Its output is,
/// with a session, the lists of tools, the calls that are not internal, and what
/// the model wrote, without what is internal. It is then completed from the
/// request, and its tools are those of the request.
pub proof fn law_final_response(
    response: JsonView,
    id: Option<Seq<char>>,
    state: ToolLoopState,
    ctx: StreamingEventContext<'_>,
    lists: Seq<JsonView>,
    key: Seq<char>,
)
    requires
        response is Object,
        crate::json::unique_keys(response->Object_0),
    ensures
        ({
            let done = final_response(response, id, state, ctx, lists);
            let wrote = match response.get_items("output"@) {
                Some(items) => crate::tool_loop::without_tool_lists(items),
                None => Seq::empty(),
            };
            &&& done is Object
            &&& id matches Some(i) ==> done.get_text("id"@) == Some(i)
            &&& id is None ==> done.get("id"@) == response.get("id"@)
            &&& ctx.session matches Some(s) ==> done.get_items("output"@) == Some(
                without_those(
                    lists + public_items(state.items(), *s) + wrote,
                    |t: JsonView| is_internal_output_item(t, ctx.session),
                ),
            )
            &&& ctx.session is None ==> done.get("output"@) == response.get("output"@)
            &&& done.get("store"@) == Some(
                JsonView::Bool(ctx.original_request.store != Some(false)),
            )
            &&& key != "id"@ && key != "output"@ && key != "tools"@ && key != "tool_choice"@ && key
                != "store"@ && key != "previous_response_id"@ && key != "instructions"@ && key
                != "metadata"@ && key != "model"@ && key != "safety_identifier"@ && key
                != "conversation"@ ==> done.get(key) == response.get(key)
        }),
{
    lemma_words();
    let known = crate::streaming::with_known_id(response, id);
    if id is Some {
        crate::json::lemma_set_keeps_unique(
            response->Object_0,
            "id"@,
            JsonView::Text(id->0),
        );
    }
    let reported = match ctx.session {
        Some(s) => with_mcp_metadata(known, lists, public_items(state.items(), *s)),
        None => known,
    };
    if ctx.session is Some {
        let calls = public_items(state.items(), *(ctx.session->0));
        let wrote = match known.get_items("output"@) {
            Some(items) => crate::tool_loop::without_tool_lists(items),
            None => Seq::empty(),
        };
        crate::json::lemma_set_keeps_unique(
            known->Object_0,
            "output"@,
            JsonView::Array(lists + calls + wrote),
        );
    }
    let tools = ctx.original_request.tools;
    let shown = restored(reported, tools, ctx.session);
    crate::laws::responses::law_restored_response(reported, tools, ctx.session, response, key);
    crate::laws::responses::law_restored_response(reported, tools, ctx.session, response, "id"@);
    crate::laws::responses::law_restored_output(reported, tools, ctx.session);
    crate::laws::responses::law_completed_response(
        shown,
        *ctx.original_request,
        ctx.previous(),
        key,
    );
    crate::laws::responses::law_completed_response(
        shown,
        *ctx.original_request,
        ctx.previous(),
        "id"@,
    );
    crate::laws::responses::law_completed_response(
        shown,
        *ctx.original_request,
        ctx.previous(),
        "output"@,
    );
}

/// What the request gave and the response lacks is in the final response, and so are
/// the tools of the request, unless they are internal.
pub proof fn law_final_response_mirrors_the_request(
    response: JsonView,
    id: Option<Seq<char>>,
    state: ToolLoopState,
    ctx: StreamingEventContext<'_>,
    lists: Seq<JsonView>,
    i: int,
)
    requires
        response is Object,
        crate::json::unique_keys(response->Object_0),
    ensures
        ({
            let done = final_response(response, id, state, ctx, lists);
            let body = *ctx.original_request;
            &&& done.get("model"@) == (if is_blank(response.get("model"@)) {
                Some(JsonView::Text(body.model@))
            } else {
                response.get("model"@)
            })
            &&& done.get("instructions"@) == (if body.instructions is Some && is_blank(
                response.get("instructions"@),
            ) {
                Some(JsonView::Text(body.instructions->0@))
            } else {
                response.get("instructions"@)
            })
            &&& done.get("previous_response_id"@) == (if ctx.previous_response_id is Some
                && is_blank(response.get("previous_response_id"@)) {
                Some(JsonView::Text(ctx.previous_response_id->0@))
            } else {
                response.get("previous_response_id"@)
            })
            &&& body.metadata is Some && is_blank(response.get("metadata"@)) ==> done.get(
                "metadata"@,
            ) == Some(JsonView::Object(crate::json::entry_views(body.metadata->0@)))
            &&& body.user is Some && response.get("safety_identifier"@) is None ==> done.get(
                "safety_identifier"@,
            ) == Some(JsonView::Text(body.user->0@))
            &&& body.conversation matches Some(c) ==> (done.get("conversation"@) matches Some(v)
                && v.get_text("id"@) == Some(c@))
            &&& body.tools matches Some(list) ==> 0 <= i < list@.len() ==> {
                let shown = done.get_items("tools"@);
                &&& list@[i] matches ResponseTool::WebSearchPreview(v) ==> !is_internal_tool_value(
                    v@,
                    ctx.session,
                ) ==> shown is Some && shown->0.contains(v@)
                &&& list@[i] matches ResponseTool::CodeInterpreter(v) ==> !is_internal_tool_value(
                    v@,
                    ctx.session,
                ) ==> shown is Some && shown->0.contains(v@)
                &&& list@[i] matches ResponseTool::Mcp(mcp) ==> !is_internal_tool_value(
                    mcp_tool_value(mcp),
                    ctx.session,
                ) ==> shown is Some && shown->0.contains(mcp_tool_value(mcp))
            }
            &&& body.tools is None && ctx.session is None ==> done.get("tools"@) == response.get(
                "tools"@,
            )
        }),
{
    lemma_words();
    let known = crate::streaming::with_known_id(response, id);
    if id is Some {
        crate::json::lemma_set_keeps_unique(
            response->Object_0,
            "id"@,
            JsonView::Text(id->0),
        );
    }
    let reported = match ctx.session {
        Some(s) => with_mcp_metadata(known, lists, public_items(state.items(), *s)),
        None => known,
    };
    if ctx.session is Some {
        let calls = public_items(state.items(), *(ctx.session->0));
        let wrote = match known.get_items("output"@) {
            Some(items) => crate::tool_loop::without_tool_lists(items),
            None => Seq::empty(),
        };
        crate::json::lemma_set_keeps_unique(
            known->Object_0,
            "output"@,
            JsonView::Array(lists + calls + wrote),
        );
    }
    let tools = ctx.original_request.tools;
    let shown = restored(reported, tools, ctx.session);
    lemma_restored_entry(reported, tools, ctx.session, "model"@);
    lemma_restored_entry(reported, tools, ctx.session, "instructions"@);
    lemma_restored_entry(reported, tools, ctx.session, "previous_response_id"@);
    lemma_restored_entry(reported, tools, ctx.session, "metadata"@);
    lemma_restored_entry(reported, tools, ctx.session, "safety_identifier"@);
    crate::laws::responses::law_completed_response(
        shown,
        *ctx.original_request,
        ctx.previous(),
        "tools"@,
    );
    if let Some(list) = tools {
        if 0 <= i < list@.len() {
            crate::laws::responses::law_requested_tools_are_restored(
                reported,
                list,
                ctx.session,
                i,
            );
        }
    } else {
        crate::laws::responses::law_stripping_keeps_the_rest(reported, ctx.session, "tools"@);
    }
}

proof fn lemma_restored_entry(
    response: JsonView,
    tools: Option<Vec<ResponseTool>>,
    session: Option<&McpToolSession<'_>>,
    key: Seq<char>,
)
    requires
        response is Object,
        crate::json::unique_keys(response->Object_0),
        key != "tools"@ && key != "tool_choice"@ && key != "output"@,
    ensures
        restored(response, tools, session) is Object,
        restored(response, tools, session).get(key) == response.get(key),
{
    crate::laws::responses::law_restored_response(response, tools, session, response, key);
}

} // verus!

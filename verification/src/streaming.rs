//! Streamed responses: events of the model on their way to the client.

use vstd::prelude::*;

use crate::events::{
    is_function_call_type, is_response_event, is_response_type, CODE_INTERPRETER_IN_PROGRESS,
    FILE_SEARCH_IN_PROGRESS, FUNCTION_ARGUMENTS_DELTA, FUNCTION_ARGUMENTS_DONE,
    ITEM_CODE_INTERPRETER_CALL, ITEM_FILE_SEARCH_CALL, ITEM_MCP_CALL, ITEM_WEB_SEARCH_CALL,
    MCP_ARGUMENTS_DELTA, MCP_ARGUMENTS_DONE, MCP_CALL_IN_PROGRESS, OUTPUT_ITEM_ADDED,
    OUTPUT_ITEM_DONE, RESPONSE_COMPLETED, WEB_SEARCH_IN_PROGRESS,
};
use crate::inventory::ResponseFormat;
use crate::json::{
    group_json_views, json_views, lemma_get_after_set, lemma_set_keeps_others, push_value, Entries,
    Json, JsonView,
};
use crate::patch::{
    fill, is_internal_mcp_output_item, is_internal_output_item, is_internal_tool_value,
    is_missing_or_empty, law_stripped_hides_internal, mcp_tool_value, patch_response_with_request_metadata, patched, response_tool_to_value,
    restore_original_tools, restored, strip_internal_mcp_output_items, strip_internal_mcp_tools,
    type_of, wants_store, without_internal_output, without_internal_tools,
};
use crate::request::{ResponseTool, ResponsesRequest};
use crate::session::{exposed_get, exposed_views, McpToolSession};
use crate::sse::{event_text, format_event};
use crate::text::{decimal, opt_view, text_eq, views};
use crate::tool_loop::{
    are_lists_for, get_text_or_empty, inject_mcp_metadata_streaming, is_call, item_event,
    list_tools_events, mcp_list_tools_events, public_items, replace_fc_prefix, reprefixed,
    text_or_empty, tool_label, with_mcp_metadata, FunctionCallInProgress, ToolLoopState,
};
use crate::wire::{json_of_text, parse, print, text_of_json};

verus! {

broadcast use vstd::string::group_string_axioms;

/// The end of a stream.
pub const SSE_DONE: &'static str = "data: [DONE]\n\n";

// ---------------------------------------------------------------------------
// Transformation of events
// ---------------------------------------------------------------------------

/// What is known of the request while its response is streamed.
pub struct StreamingEventContext<'a> {
    pub original_request: &'a ResponsesRequest,
    pub previous_response_id: Option<&'a str>,
    pub session: Option<&'a McpToolSession<'a>>,
}

impl<'a> StreamingEventContext<'a> {
    /// The identifier of the previous response.
    pub open spec fn previous(self) -> Option<Seq<char>> {
        match self.previous_response_id {
            Some(p) => Some(p@),
            None => None,
        }
    }

    /// Whether there is one list of tools for each server whose tools are
    /// listed, under its label.
    pub open spec fn has_lists(self, lists: Seq<JsonView>) -> bool {
        match self.session {
            Some(s) => are_lists_for(lists, *s),
            None => lists.len() == 0,
        }
    }
}

/// The MCP tools of a request as the client wrote them.
pub open spec fn mcp_tool_values(tools: Seq<ResponseTool>) -> Seq<JsonView>
    decreases tools.len(),
{
    if tools.len() == 0 {
        Seq::empty()
    } else {
        match tools.last() {
            ResponseTool::Mcp(mcp) => mcp_tool_values(tools.drop_last()).push(
                mcp_tool_value(mcp),
            ),
            _ => mcp_tool_values(tools.drop_last()),
        }
    }
}

/// The MCP tools of a request as the client wrote them, where it has any.
pub open spec fn mcp_tools_value(body: ResponsesRequest) -> Option<JsonView> {
    match body.tools {
        Some(tools) => if mcp_tool_values(tools@).len() > 0 {
            Some(JsonView::Array(mcp_tool_values(tools@)))
        } else {
            None
        },
        None => None,
    }
}

/// The MCP tools of a request as the client wrote them, where it has any.
pub fn build_mcp_tools_value(original_body: &ResponsesRequest) -> (r: Option<Json>)
    ensures
        crate::json::opt_json(r) == mcp_tools_value(*original_body),
{
    broadcast use group_json_views;

    match &original_body.tools {
        Some(tools) => {
            let mut values: Vec<Json> = Vec::new();
            assert(json_views(values@) =~= Seq::<JsonView>::empty());
            for i in 0..tools.len()
                invariant
                    json_views(values@) == mcp_tool_values(tools@.take(i as int)),
            {
                proof {
                    let next = tools@.take(i + 1);
                    assert(next.drop_last() =~= tools@.take(i as int));
                    assert(next.last() == tools@[i as int]);
                }
                let is_mcp: bool = match &tools[i] {
                    ResponseTool::Mcp(_) => true,
                    _ => false,
                };
                if is_mcp {
                    if let Some(v) = response_tool_to_value(&tools[i]) {
                        push_value(&mut values, v);
                    }
                }
            }
            assert(tools@.take(tools@.len() as int) =~= tools@);
            assert(json_views(values@).len() == values@.len());
            if values.is_empty() {
                None
            } else {
                Some(Json::Array(values))
            }
        },
        None => None,
    }
}

/// A response with the MCP tools of the request in place of function tools,
/// where it names tools.
pub open spec fn with_masked_tools(response: JsonView, body: ResponsesRequest) -> JsonView {
    match (response.get("tools"@), mcp_tools_value(body)) {
        (Some(_), Some(tools)) => {
            let masked = response.set("tools"@, tools);
            if masked.get("tool_choice"@) is None {
                masked.set("tool_choice"@, JsonView::Text("auto"@))
            } else {
                masked
            }
        },
        _ => response,
    }
}

/// The response of an event as the client gets it.
pub open spec fn client_response(
    response: JsonView,
    body: ResponsesRequest,
    previous: Option<Seq<char>>,
) -> JsonView {
    let stored = if response.get("store"@) == Some(JsonView::Bool(wants_store(body))) {
        response
    } else {
        response.set("store"@, JsonView::Bool(wants_store(body)))
    };
    with_masked_tools(fill(stored, "previous_response_id"@, previous), body)
}

/// An event whose response is as the client gets it.
pub open spec fn with_client_response(
    event: JsonView,
    body: ResponsesRequest,
    previous: Option<Seq<char>>,
) -> JsonView {
    if is_response_type(type_of(event)) {
        match event.get("response"@) {
            Some(response) => if response is Object {
                event.set("response"@, client_response(response, body, previous))
            } else {
                event
            },
            None => event,
        }
    } else {
        event
    }
}

/// The type and the identifier prefix of a call as the client sees it.
pub open spec fn client_call(format: ResponseFormat) -> (Seq<char>, Seq<char>) {
    if format == ResponseFormat::WebSearchCall {
        (ITEM_WEB_SEARCH_CALL@, "ws_"@)
    } else {
        (ITEM_MCP_CALL@, "mcp_"@)
    }
}

/// An item with another prefix in place of `fc_` in its identifier.
pub open spec fn with_id_prefix(item: JsonView, key: Seq<char>, prefix: Seq<char>) -> JsonView {
    match item.get_text(key) {
        Some(id) => if crate::text::has_prefix(id, "fc_"@) {
            item.set(key, JsonView::Text(reprefixed(id, prefix)))
        } else {
            item
        },
        None => item,
    }
}

/// The item of an event as the client sees it: a call of an exposed tool is
/// shown as a call of an MCP tool or as a web search.
pub open spec fn client_item(item: JsonView, session: Option<&McpToolSession<'_>>) -> JsonView {
    let name = text_or_empty(item, "name"@);
    match session {
        Some(s) => if is_call(item) && exposed_get(exposed_views(s.exposed@), name) is Some {
            let shown = client_call(s.format_of(name));
            let typed = item.set("type"@, JsonView::Text(shown.0));
            let labelled = if shown.0 == ITEM_MCP_CALL@ {
                typed.set("server_label"@, JsonView::Text(tool_label(*s, name)))
            } else {
                typed
            };
            with_id_prefix(labelled, "id"@, shown.1)
        } else {
            item
        },
        None => item,
    }
}

/// Whether the item of an event is shown otherwise than it came.
pub open spec fn is_shown_otherwise(item: JsonView, session: Option<&McpToolSession<'_>>) -> bool {
    match session {
        Some(s) => is_call(item) && exposed_get(
            exposed_views(s.exposed@),
            text_or_empty(item, "name"@),
        ) is Some,
        None => false,
    }
}

/// An event as the client sees it, by the type that it came with.
pub open spec fn with_client_item(
    event: JsonView,
    event_type: Seq<char>,
    session: Option<&McpToolSession<'_>>,
) -> JsonView {
    if event_type == OUTPUT_ITEM_ADDED@ || event_type == OUTPUT_ITEM_DONE@ {
        match event.get("item"@) {
            Some(item) => if is_shown_otherwise(item, session) {
                event.set("item"@, client_item(item, session))
            } else {
                event
            },
            None => event,
        }
    } else if event_type == FUNCTION_ARGUMENTS_DONE@ {
        with_id_prefix(
            event.set("type"@, JsonView::Text(MCP_ARGUMENTS_DONE@)),
            "item_id"@,
            "mcp_"@,
        )
    } else {
        event
    }
}

/// An event as the client gets it.
pub open spec fn client_event(event: JsonView, ctx: StreamingEventContext<'_>) -> JsonView {
    with_client_item(
        with_client_response(event, *ctx.original_request, ctx.previous()),
        type_of(event),
        ctx.session,
    )
}

/// Whether an event is changed on its way to the client.
pub open spec fn is_changed(event: JsonView, ctx: StreamingEventContext<'_>) -> bool {
    let body = *ctx.original_request;
    ||| {
        &&& is_response_type(type_of(event))
        &&& event.get("response"@) matches Some(response)
        &&& response is Object
        &&& {
            ||| response.get("store"@) != Some(JsonView::Bool(wants_store(body)))
            ||| ctx.previous() is Some && crate::patch::is_blank(
                response.get("previous_response_id"@),
            )
            ||| response.get("tools"@) is Some && mcp_tools_value(body) is Some
        }
    }
    ||| {
        &&& type_of(event) == OUTPUT_ITEM_ADDED@ || type_of(event) == OUTPUT_ITEM_DONE@
        &&& with_client_response(event, body, ctx.previous()).get("item"@) matches Some(item)
        &&& is_shown_otherwise(item, ctx.session)
    }
    ||| type_of(event) == FUNCTION_ARGUMENTS_DONE@
}

/// Rewrites an identifier in place.
fn replace_id_prefix(item: &mut Json, key: &str, prefix: &str)
    ensures
        final(item)@ == with_id_prefix(old(item)@, key@, prefix@),
{
    let new_id: Option<String> = match item.get_str(key) {
        Some(id) => if crate::text::starts_with(id, "fc_") {
            Some(replace_fc_prefix(id, prefix))
        } else {
            None
        },
        None => None,
    };
    if let Some(id) = new_id {
        item.set(key, Json::text(id.as_str()));
    }
}

proof fn lemma_response_keys_differ()
    ensures
        "store"@ != "previous_response_id"@,
        "store"@ != "tools"@,
        "previous_response_id"@ != "tools"@,
{
    reveal_strlit("store");
    reveal_strlit("previous_response_id");
    reveal_strlit("tools");
    assert("store"@[0] == 's' && "tools"@[0] == 't');
    assert("store"@.len() == 5 && "previous_response_id"@.len() == 20 && "tools"@.len() == 5);
}

/// Brings the response of an event into the form for the client; tells whether
/// anything was written.
fn patch_client_response(
    response: &mut Json,
    body: &ResponsesRequest,
    previous: Option<&str>,
) -> (changed: bool)
    ensures
        final(response)@ == client_response(
            old(response)@,
            *body,
            match previous {
                Some(p) => Some(p@),
                None => None,
            },
        ),
        changed == ({
            ||| old(response)@.get("store"@) != Some(JsonView::Bool(wants_store(*body)))
            ||| previous is Some && crate::patch::is_blank(
                old(response)@.get("previous_response_id"@),
            )
            ||| old(response)@.get("tools"@) is Some && mcp_tools_value(*body) is Some
        }),
{
    let ghost start = response@;
    let mut changed: bool = false;
    let store: bool = match body.store {
        Some(b) => b,
        None => true,
    };
    proof {
        lemma_response_keys_differ();
        lemma_set_keeps_others(
            start,
            "store"@,
            JsonView::Bool(store),
            "previous_response_id"@,
        );
        lemma_set_keeps_others(start, "store"@, JsonView::Bool(store), "tools"@);
    }
    let stored: bool = match response.get("store") {
        Some(v) => match v {
            Json::Bool(b) => *b == store,
            _ => false,
        },
        None => false,
    };
    if !stored {
        response.set("store", Json::Bool(store));
        changed = true;
    }
    let ghost middle = response@;
    if let Some(p) = previous {
        if is_missing_or_empty(response.get("previous_response_id")) {
            proof {
                lemma_set_keeps_others(
                    middle,
                    "previous_response_id"@,
                    JsonView::Text(p@),
                    "tools"@,
                );
            }
            response.set("previous_response_id", Json::text(p));
            changed = true;
        }
    }
    if response.has("tools") {
        if let Some(tools) = build_mcp_tools_value(body) {
            response.set("tools", tools);
            if !response.has("tool_choice") {
                response.set("tool_choice", Json::text("auto"));
            }
            changed = true;
        }
    }
    changed
}

/// Brings the item of an event into the form for the client; tells whether it
/// is shown otherwise than it came.
fn show_item(item: &mut Json, session: Option<&McpToolSession<'_>>) -> (changed: bool)
    ensures
        final(item)@ == client_item(old(item)@, session),
        changed == is_shown_otherwise(old(item)@, session),
{
    match session {
        None => false,
        Some(s) => {
            let is_function_call: bool = match item.get_str("type") {
                Some(t) => is_function_call_type(t),
                None => false,
            };
            if !is_function_call {
                return false;
            }
            let name: String = get_text_or_empty(item, "name").to_owned();
            if !s.has_exposed_tool(name.as_str()) {
                return false;
            }
            proof {
                reveal_strlit("web_search_call");
                reveal_strlit("mcp_call");
                assert(ITEM_WEB_SEARCH_CALL@.len() == 15 && ITEM_MCP_CALL@.len() == 8);
            }
            match s.tool_response_format(name.as_str()) {
                ResponseFormat::WebSearchCall => {
                    item.set("type", Json::text(ITEM_WEB_SEARCH_CALL));
                    replace_id_prefix(item, "id", "ws_");
                },
                _ => {
                    item.set("type", Json::text(ITEM_MCP_CALL));
                    let label = s.resolve_tool_server_label(name.as_str());
                    item.set("server_label", Json::text(label.as_str()));
                    replace_id_prefix(item, "id", "mcp_");
                },
            }
            true
        },
    }
}

/// Brings an event into the form for the client; tells whether anything was
/// changed.
pub fn apply_event_transformations_inplace(
    parsed_data: &mut Json,
    ctx: &StreamingEventContext<'_>,
) -> (changed: bool)
    ensures
        final(parsed_data)@ == client_event(old(parsed_data)@, *ctx),
        changed == is_changed(old(parsed_data)@, *ctx),
{
    let ghost start = parsed_data@;
    let event_type: String = get_text_or_empty(parsed_data, "type").to_owned();
    let mut changed: bool = false;
    if is_response_event(event_type.as_str()) {
        let response: Option<Json> = match parsed_data.get("response") {
            Some(v) => if v.is_object() {
                Some(v.clone())
            } else {
                None
            },
            None => None,
        };
        if let Some(mut response) = response {
            changed = patch_client_response(
                &mut response,
                ctx.original_request,
                ctx.previous_response_id,
            );
            parsed_data.set("response", response);
        }
    }
    assert(parsed_data@ == with_client_response(start, *ctx.original_request, ctx.previous()));
    if text_eq(event_type.as_str(), OUTPUT_ITEM_ADDED) || text_eq(
        event_type.as_str(),
        OUTPUT_ITEM_DONE,
    ) {
        proof {
            reveal_strlit("response.output_item.added");
            reveal_strlit("response.output_item.done");
            reveal_strlit("response.function_call_arguments.done");
            assert(FUNCTION_ARGUMENTS_DONE@.len() == 37);
            assert(OUTPUT_ITEM_ADDED@.len() == 26);
            assert(OUTPUT_ITEM_DONE@.len() == 25);
        }
        let item: Option<Json> = match parsed_data.get("item") {
            Some(item) => Some(item.clone()),
            None => None,
        };
        if let Some(mut item) = item {
            if show_item(&mut item, ctx.session) {
                parsed_data.set("item", item);
                changed = true;
            }
        }
    } else if text_eq(event_type.as_str(), FUNCTION_ARGUMENTS_DONE) {
        parsed_data.set("type", Json::text(MCP_ARGUMENTS_DONE));
        replace_id_prefix(parsed_data, "item_id", "mcp_");
        changed = true;
    }
    changed
}

/// An identifier `fc_*` as `mcp_*`; any other as it is.
pub fn transform_fc_to_mcp_id(item_id: &str) -> (r: String)
    ensures
        r@ == reprefixed(item_id@, "mcp_"@),
{
    replace_fc_prefix(item_id, "mcp_")
}

/// The name of an event as the client sees it.
pub open spec fn client_event_name(name: Seq<char>) -> Seq<char> {
    if name == FUNCTION_ARGUMENTS_DELTA@ {
        MCP_ARGUMENTS_DELTA@
    } else if name == FUNCTION_ARGUMENTS_DONE@ {
        MCP_ARGUMENTS_DONE@
    } else {
        name
    }
}

/// The name of an event as the client sees it.
pub fn map_event_name(event_name: &str) -> (r: &str)
    ensures
        r@ == client_event_name(event_name@),
{
    if text_eq(event_name, FUNCTION_ARGUMENTS_DELTA) {
        MCP_ARGUMENTS_DELTA
    } else if text_eq(event_name, FUNCTION_ARGUMENTS_DONE) {
        MCP_ARGUMENTS_DONE
    } else {
        event_name
    }
}

// ---------------------------------------------------------------------------
// Forwarding of events
// ---------------------------------------------------------------------------

/// What is known of the response that is being received.
pub struct StreamingToolHandler {
    /// The calls that the response asks for.
    pub pending_calls: Vec<FunctionCallInProgress>,
    /// Places in the output of the model, with their places for the client.
    pub index_map: Vec<(usize, usize)>,
    /// The identifier under which the client knows the response.
    pub original_response_id: Option<String>,
    /// The next free place in the output for the client.
    pub next_output_index: usize,
}

/// The place for the client of a place in the output of the model, among those
/// from `from` on.
pub open spec fn mapped_index(map: Seq<(usize, usize)>, index: usize, from: int) -> Option<usize>
    decreases map.len() - from,
{
    if from >= map.len() {
        None
    } else if map[from].0 == index {
        Some(map[from].1)
    } else {
        mapped_index(map, index, from + 1)
    }
}

/// The first call, from `from` on, with the given place in the output of the
/// model; the number of calls where there is none.
pub open spec fn call_index(calls: Seq<FunctionCallInProgress>, index: usize, from: int) -> int
    decreases calls.len() - from,
{
    if from >= calls.len() {
        calls.len() as int
    } else if calls[from].output_index == index {
        from
    } else {
        call_index(calls, index, from + 1)
    }
}

impl StreamingToolHandler {
    /// The handler of a response whose items come at `next_output_index` and
    /// behind it.
    pub fn with_starting_index(
        next_output_index: usize,
        original_response_id: Option<String>,
    ) -> (r: StreamingToolHandler)
        ensures
            r.pending_calls@.len() == 0,
            r.index_map@.len() == 0,
            r.original_response_id == original_response_id,
            r.next_output_index == next_output_index,
    {
        StreamingToolHandler {
            pending_calls: Vec::new(),
            index_map: Vec::new(),
            original_response_id,
            next_output_index,
        }
    }

    /// The place for the client of a place in the output of the model.
    pub fn mapped_output_index(&self, index: usize) -> (r: Option<usize>)
        ensures
            r == mapped_index(self.index_map@, index, 0),
    {
        let mut i: usize = 0;
        while i < self.index_map.len()
            invariant
                i <= self.index_map@.len(),
                mapped_index(self.index_map@, index, 0) == mapped_index(
                    self.index_map@,
                    index,
                    i as int,
                ),
            decreases self.index_map@.len() - i,
        {
            if self.index_map[i].0 == index {
                return Some(self.index_map[i].1);
            }
            i += 1;
        }
        None
    }

    /// The call with the given place in the output of the model.
    fn find_call(&self, index: usize) -> (r: Option<&FunctionCallInProgress>)
        ensures
            ({
                let at = call_index(self.pending_calls@, index, 0);
                match r {
                    Some(c) => at < self.pending_calls@.len() && *c == self.pending_calls@[at],
                    None => at >= self.pending_calls@.len(),
                }
            }),
    {
        let mut i: usize = 0;
        while i < self.pending_calls.len()
            invariant
                i <= self.pending_calls@.len(),
                call_index(self.pending_calls@, index, 0) == call_index(
                    self.pending_calls@,
                    index,
                    i as int,
                ),
            decreases self.pending_calls@.len() - i,
        {
            if self.pending_calls[i].output_index == index {
                return Some(&self.pending_calls[i]);
            }
            i += 1;
        }
        None
    }

    /// Takes the next free place in the output for the client.
    pub fn allocate_synthetic_output_index(&mut self) -> (index: usize)
        requires
            old(self).next_output_index < usize::MAX,
        ensures
            index == old(self).next_output_index,
            final(self).next_output_index == old(self).next_output_index + 1,
            final(self).pending_calls == old(self).pending_calls,
            final(self).index_map == old(self).index_map,
            final(self).original_response_id == old(self).original_response_id,
    {
        let index: usize = self.next_output_index;
        self.next_output_index = index + 1;
        index
    }
}

/// The place in the output that an event names.
pub open spec fn event_index(event: JsonView) -> Option<usize> {
    match event.get("output_index"@) {
        Some(v) => match v.as_u64() {
            Some(n) => if n <= usize::MAX {
                Some(n as usize)
            } else {
                None
            },
            None => None,
        },
        None => None,
    }
}

/// The place in the output that an event names.
pub fn extract_output_index(event: &Json) -> (r: Option<usize>)
    ensures
        r == event_index(event@),
{
    match event.get("output_index") {
        Some(v) => match v.as_u64() {
            Some(n) => if n <= usize::MAX as u64 {
                Some(n as usize)
            } else {
                None
            },
            None => None,
        },
        None => None,
    }
}

/// What an event is about: the name of its block, or else the type in its data.
pub open spec fn kind_of(name: Option<Seq<char>>, event: JsonView) -> Seq<char> {
    match name {
        Some(n) => n,
        None => type_of(event),
    }
}

/// The arguments that were held back for a call.
pub open spec fn held_arguments(call: FunctionCallInProgress) -> Seq<char> {
    crate::tool_loop::received_arguments(call.arguments_buffer@)
}

/// The obfuscation that goes with the arguments of a call.
pub open spec fn obfuscation_of(call: FunctionCallInProgress, event: JsonView) -> Option<JsonView> {
    match call.last_obfuscation {
        Some(o) => Some(JsonView::Text(o@)),
        None => event.get("obfuscation"@),
    }
}

/// The event that carries the arguments of a call.
pub open spec fn arguments_event(
    call: FunctionCallInProgress,
    event: JsonView,
    index: nat,
    sequence: nat,
) -> JsonView {
    let delta = JsonView::Object(
        seq![
            ("type"@, JsonView::Text(MCP_ARGUMENTS_DELTA@)),
            ("sequence_number"@, JsonView::Number(decimal(sequence))),
            ("output_index"@, JsonView::Number(decimal(index))),
            ("item_id"@, JsonView::Text(reprefixed(text_or_empty(event, "item_id"@), "mcp_"@))),
            ("delta"@, JsonView::Text(held_arguments(call))),
        ],
    );
    match obfuscation_of(call, event) {
        Some(o) => delta.set("obfuscation"@, o),
        None => delta,
    }
}

/// An event in the course of being forwarded: its data, its place for the
/// client where that is known, the texts that were sent before it, and the next
/// sequence number.
pub struct Progress {
    pub event: JsonView,
    pub index: Option<usize>,
    pub sent: Seq<Seq<char>>,
    pub sequence: nat,
}

/// The end of the arguments of a call: the arguments that were held back are
/// sent first.
pub open spec fn with_held_arguments(
    event: JsonView,
    handler: StreamingToolHandler,
    sequence: nat,
) -> Progress {
    match event_index(event) {
        None => Progress { event, index: None, sent: Seq::empty(), sequence },
        Some(i) => {
            let index = match mapped_index(handler.index_map@, i, 0) {
                Some(m) => m,
                None => i,
            };
            let at = call_index(handler.pending_calls@, i, 0);
            if at < handler.pending_calls@.len() {
                let call = handler.pending_calls@[at];
                let full = event.set("arguments"@, JsonView::Text(held_arguments(call)));
                Progress {
                    event: full,
                    index: Some(index),
                    sent: seq![
                        event_text(
                            MCP_ARGUMENTS_DELTA@,
                            arguments_event(call, full, index as nat, sequence),
                        ),
                    ],
                    sequence: sequence + 1,
                }
            } else {
                Progress { event, index: Some(index), sent: Seq::empty(), sequence }
            }
        },
    }
}

/// Sends the arguments of a call that were held back. Gives the text to send,
/// if there is one, and the place of the call for the client.
fn buffered_arguments(
    parsed_data: &mut Json,
    handler: &StreamingToolHandler,
    sequence_number: &mut u64,
) -> (r: (Option<String>, Option<usize>))
    requires
        *old(sequence_number) < u64::MAX,
    ensures
        ({
            let p = with_held_arguments(
                old(parsed_data)@,
                *handler,
                *old(sequence_number) as nat,
            );
            &&& final(parsed_data)@ == p.event
            &&& r.1 == p.index
            &&& *final(sequence_number) == p.sequence
            &&& match r.0 {
                Some(text) => p.sent == seq![text@],
                None => p.sent == Seq::<Seq<char>>::empty(),
            }
        }),
{
    let output_index: usize = match extract_output_index(parsed_data) {
        Some(i) => i,
        None => {
            return (None, None);
        },
    };
    let assigned: usize = match handler.mapped_output_index(output_index) {
        Some(m) => m,
        None => output_index,
    };
    let call = match handler.find_call(output_index) {
        Some(c) => c,
        None => {
            return (None, Some(assigned));
        },
    };
    let arguments = if call.arguments_buffer.as_str().is_empty() {
        "{}"
    } else {
        call.arguments_buffer.as_str()
    };
    parsed_data.set("arguments", Json::text(arguments));
    let item_id = transform_fc_to_mcp_id(get_text_or_empty(parsed_data, "item_id"));
    let entries = Entries::new().with("type", Json::text(MCP_ARGUMENTS_DELTA)).with(
        "sequence_number",
        Json::number(*sequence_number),
    ).with("output_index", Json::number(assigned as u64)).with(
        "item_id",
        Json::text(item_id.as_str()),
    ).with("delta", Json::text(arguments));
    proof {
        let delta = seq![
            ("type"@, JsonView::Text(MCP_ARGUMENTS_DELTA@)),
            ("sequence_number"@, JsonView::Number(decimal(*sequence_number as nat))),
            ("output_index"@, JsonView::Number(decimal(assigned as nat))),
            (
                "item_id"@,
                JsonView::Text(reprefixed(text_or_empty(parsed_data@, "item_id"@), "mcp_"@)),
            ),
            ("delta"@, JsonView::Text(held_arguments(*call))),
        ];
        assert(entries@ =~= delta);
    }
    let mut delta = entries.into_object();
    match &call.last_obfuscation {
        Some(o) => {
            delta.set("obfuscation", Json::text(o.as_str()));
        },
        None => match parsed_data.get("obfuscation") {
            Some(o) => {
                delta.set("obfuscation", o.clone());
            },
            None => {},
        },
    }
    *sequence_number = *sequence_number + 1;
    (Some(format_event(MCP_ARGUMENTS_DELTA, &delta)), Some(assigned))
}

/// The event that a call has begun, by the type of its item.
pub open spec fn begun_event(item_type: Seq<char>) -> Option<Seq<char>> {
    if item_type == ITEM_MCP_CALL@ {
        Some(MCP_CALL_IN_PROGRESS@)
    } else if item_type == ITEM_WEB_SEARCH_CALL@ {
        Some(WEB_SEARCH_IN_PROGRESS@)
    } else if item_type == ITEM_CODE_INTERPRETER_CALL@ {
        Some(CODE_INTERPRETER_IN_PROGRESS@)
    } else if item_type == ITEM_FILE_SEARCH_CALL@ {
        Some(FILE_SEARCH_IN_PROGRESS@)
    } else {
        None
    }
}

/// The text to send behind an item that was added: that its call has begun,
/// where the item is a call with an identifier and a place.
pub open spec fn begun_text(event: JsonView, sequence: nat) -> Option<Seq<char>> {
    match event.get("item"@) {
        Some(item) => match (
            begun_event(text_or_empty(item, "type"@)),
            item.get_text("id"@),
            event_u64(event, "output_index"@),
        ) {
            (Some(name), Some(id), Some(index)) => Some(
                event_text(name, item_event(name, sequence, index as nat, id)),
            ),
            _ => None,
        },
        None => None,
    }
}

/// The unsigned number under `key`.
pub open spec fn event_u64(event: JsonView, key: Seq<char>) -> Option<u64> {
    match event.get(key) {
        Some(v) => v.as_u64(),
        None => None,
    }
}

/// The text to send behind an item that was added.
pub fn maybe_inject_tool_in_progress(parsed_data: &Json, sequence_number: &mut u64) -> (text:
    Option<String>)
    requires
        *old(sequence_number) < u64::MAX,
    ensures
        opt_view(text) == begun_text(parsed_data@, *old(sequence_number) as nat),
        *final(sequence_number) == *old(sequence_number) + (if text is Some {
            1int
        } else {
            0
        }),
{
    let item = match parsed_data.get("item") {
        Some(item) => item,
        None => {
            return None;
        },
    };
    let item_type = get_text_or_empty(item, "type");
    let event_type = if text_eq(item_type, ITEM_MCP_CALL) {
        MCP_CALL_IN_PROGRESS
    } else if text_eq(item_type, ITEM_WEB_SEARCH_CALL) {
        WEB_SEARCH_IN_PROGRESS
    } else if text_eq(item_type, ITEM_CODE_INTERPRETER_CALL) {
        CODE_INTERPRETER_IN_PROGRESS
    } else if text_eq(item_type, ITEM_FILE_SEARCH_CALL) {
        FILE_SEARCH_IN_PROGRESS
    } else {
        return None;
    };
    let item_id = match item.get_str("id") {
        Some(id) => id,
        None => {
            return None;
        },
    };
    let output_index: u64 = match parsed_data.get("output_index") {
        Some(v) => match v.as_u64() {
            Some(n) => n,
            None => {
                return None;
            },
        },
        None => {
            return None;
        },
    };
    let entries = Entries::new().with("type", Json::text(event_type)).with(
        "sequence_number",
        Json::number(*sequence_number),
    ).with("output_index", Json::number(output_index)).with("item_id", Json::text(item_id));
    assert(entries@ =~= item_event(
        event_type@,
        *sequence_number as nat,
        output_index as nat,
        item_id@,
    )->Object_0);
    *sequence_number = *sequence_number + 1;
    Some(format_event(event_type, &entries.into_object()))
}

/// An event with its place for the client, where that is known.
pub open spec fn with_index(event: JsonView, index: Option<usize>) -> JsonView {
    match index {
        Some(i) => event.set("output_index"@, JsonView::Number(decimal(i as nat))),
        None => event,
    }
}

/// An event whose response has the identifier that the client knows.
pub open spec fn with_response_id(event: JsonView, id: Option<Seq<char>>) -> JsonView {
    match (event.get("response"@), id) {
        (Some(response), Some(id)) => if response is Object {
            event.set("response"@, response.set("id"@, JsonView::Text(id)))
        } else {
            event
        },
        _ => event,
    }
}

/// An event with the next sequence number, where it has one at all.
pub open spec fn with_sequence(event: JsonView, sequence: nat) -> JsonView {
    if event.get("sequence_number"@) is Some {
        event.set("sequence_number"@, JsonView::Number(decimal(sequence)))
    } else {
        event
    }
}

/// The text of a forwarded event.
pub open spec fn forwarded_text(name: Option<Seq<char>>, event: JsonView) -> Seq<char> {
    match name {
        Some(n) => event_text(client_event_name(n), event),
        None => "data: "@ + text_of_json(event) + "\n\n"@,
    }
}

/// Whether an event is about the arguments of a call.
pub open spec fn is_about_arguments(kind: Seq<char>) -> bool {
    kind == FUNCTION_ARGUMENTS_DELTA@ || kind == FUNCTION_ARGUMENTS_DONE@
}

/// Whether an item is a call of an internal server's tool, or otherwise belongs
/// to an internal server.
pub open spec fn is_internal_item(item: JsonView, session: McpToolSession<'_>) -> bool {
    ||| is_internal_output_item(item, Some(&session))
    ||| is_call(item) && session.tool_is_internal(text_or_empty(item, "name"@))
}

/// Whether an event is kept from the client: it carries the item of an internal
/// server, or is about the arguments of a call of such a server's tool.
pub open spec fn is_kept_back(
    name: Option<Seq<char>>,
    event: JsonView,
    handler: StreamingToolHandler,
    session: Option<&McpToolSession<'_>>,
) -> bool {
    match session {
        None => false,
        Some(s) => {
            ||| event.get("item"@) is Some && is_internal_item(event.get("item"@)->0, *s)
            ||| {
                &&& is_about_arguments(kind_of(name, event))
                &&& event_index(event) matches Some(i)
                &&& {
                    let at = call_index(handler.pending_calls@, i, 0);
                    at < handler.pending_calls@.len() && s.tool_is_internal(
                        handler.pending_calls@[at].name@,
                    )
                }
            }
        },
    }
}

/// Whether an event is kept from the client.
fn keeps_back(
    event_name: Option<&str>,
    event: &Json,
    handler: &StreamingToolHandler,
    session: Option<&McpToolSession<'_>>,
) -> (r: bool)
    ensures
        r == is_kept_back(
            match event_name {
                Some(n) => Some(n@),
                None => None,
            },
            event@,
            *handler,
            session,
        ),
{
    let s = match session {
        Some(s) => s,
        None => {
            return false;
        },
    };
    if let Some(item) = event.get("item") {
        if is_internal_mcp_output_item(item, Some(s)) {
            return true;
        }
        let is_function_call: bool = match item.get_str("type") {
            Some(t) => is_function_call_type(t),
            None => false,
        };
        if is_function_call && s.is_internal_tool(get_text_or_empty(item, "name")) {
            return true;
        }
    }
    let kind = match event_name {
        Some(n) => n,
        None => get_text_or_empty(event, "type"),
    };
    if !text_eq(kind, FUNCTION_ARGUMENTS_DELTA) && !text_eq(kind, FUNCTION_ARGUMENTS_DONE) {
        return false;
    }
    match extract_output_index(event) {
        Some(i) => match handler.find_call(i) {
            Some(call) => s.is_internal_tool(call.name.as_str()),
            None => false,
        },
        None => false,
    }
}

/// An event whose response names nothing of an internal server.
pub open spec fn with_public_response(
    event: JsonView,
    session: Option<&McpToolSession<'_>>,
) -> JsonView {
    match event.get("response"@) {
        Some(response) => if response is Object {
            event.set(
                "response"@,
                without_internal_tools(without_internal_output(response, session), session),
            )
        } else {
            event
        },
        None => event,
    }
}

/// What is sent for an event whose data was read, and the next sequence number.
pub open spec fn forwarded(
    name: Option<Seq<char>>,
    event: JsonView,
    handler: StreamingToolHandler,
    ctx: StreamingEventContext<'_>,
    sequence: nat,
) -> (Seq<Seq<char>>, nat) {
    if name == Some(FUNCTION_ARGUMENTS_DELTA@) || kind_of(name, event) == RESPONSE_COMPLETED@
        || is_kept_back(name, event, handler, ctx.session) {
        (Seq::empty(), sequence)
    } else {
        let first = if name == Some(FUNCTION_ARGUMENTS_DONE@) {
            with_held_arguments(event, handler, sequence)
        } else {
            Progress { event, index: None, sent: Seq::empty(), sequence }
        };
        let index = match first.index {
            Some(i) => Some(i),
            None => match event_index(first.event) {
                Some(i) => mapped_index(handler.index_map@, i, 0),
                None => None,
            },
        };
        let shown = with_response_id(
            with_public_response(client_event(with_index(first.event, index), ctx), ctx.session),
            opt_view(handler.original_response_id),
        );
        let numbered = with_sequence(shown, first.sequence);
        let next = if shown.get("sequence_number"@) is Some {
            first.sequence + 1
        } else {
            first.sequence
        };
        let sent = first.sent.push(forwarded_text(name, numbered));
        if name == Some(OUTPUT_ITEM_ADDED@) {
            match begun_text(numbered, next) {
                Some(text) => (sent.push(text), next + 1),
                None => (sent, next),
            }
        } else {
            (sent, next)
        }
    }
}

/// An event of the model's stream.
pub struct SseEventData<'a> {
    pub raw_block: &'a str,
    pub event_name: Option<&'a str>,
    pub data: &'a str,
}

impl<'a> SseEventData<'a> {
    /// The name of the event.
    pub open spec fn name(self) -> Option<Seq<char>> {
        match self.event_name {
            Some(n) => Some(n@),
            None => None,
        }
    }

    /// The value that its data holds, where that is JSON.
    pub open spec fn value(self) -> Option<JsonView> {
        match json_of_text(self.data@) {
            Ok(v) => Some(v),
            Err(_) => None,
        }
    }
}

/// Whether an event has the given name.
fn is_named(event_name: Option<&str>, wanted: &str) -> (r: bool)
    ensures
        r == (match event_name {
            Some(n) => n@ == wanted@,
            None => false,
        }),
{
    match event_name {
        Some(n) => text_eq(n, wanted),
        None => false,
    }
}

/// A copy of the response that an event carries, where it is an object.
fn response_object(event: &Json) -> (r: Option<Json>)
    ensures
        match r {
            Some(v) => v@ is Object && event@.get("response"@) == Some(v@),
            None => event@.get("response"@) matches Some(v) ==> !(v is Object),
        },
{
    match event.get("response") {
        Some(v) => if v.is_object() {
            Some(v.clone())
        } else {
            None
        },
        None => None,
    }
}

/// Takes what belongs to internal servers out of the response of an event.
fn hide_internal(event: &mut Json, session: Option<&McpToolSession<'_>>)
    ensures
        final(event)@ == with_public_response(old(event)@, session),
{
    if let Some(mut response) = response_object(event) {
        strip_internal_mcp_output_items(&mut response, session);
        strip_internal_mcp_tools(&mut response, session);
        event.set("response", response);
    }
}

/// What is sent to the client for an event whose data was read, in order.
pub fn forward_parsed_event(
    event_name: Option<&str>,
    parsed: Json,
    handler: &StreamingToolHandler,
    ctx: &StreamingEventContext<'_>,
    sequence_number: &mut u64,
) -> (texts: Vec<String>)
    requires
        *old(sequence_number) + 3 <= u64::MAX,
    ensures
        ({
            let f = forwarded(
                match event_name {
                    Some(n) => Some(n@),
                    None => None,
                },
                parsed@,
                *handler,
                *ctx,
                *old(sequence_number) as nat,
            );
            &&& views(texts@) == f.0
            &&& *final(sequence_number) == f.1
        }),
{
    let mut texts: Vec<String> = Vec::new();
    assert(views(texts@) =~= Seq::<Seq<char>>::empty());
    if is_named(event_name, FUNCTION_ARGUMENTS_DELTA) {
        return texts;
    }
    let completed: bool = match event_name {
        Some(n) => text_eq(n, RESPONSE_COMPLETED),
        None => text_eq(get_text_or_empty(&parsed, "type"), RESPONSE_COMPLETED),
    };
    if completed || keeps_back(event_name, &parsed, handler, ctx.session) {
        return texts;
    }
    let mut event = parsed;
    let mut index: Option<usize> = None;
    if is_named(event_name, FUNCTION_ARGUMENTS_DONE) {
        let (text, found) = buffered_arguments(&mut event, handler, sequence_number);
        index = found;
        if let Some(t) = text {
            let ghost view = t@;
            texts.push(t);
            assert(views(texts@) =~= seq![view]);
        }
    }
    let ghost sent_first = views(texts@);
    if index.is_none() {
        if let Some(i) = extract_output_index(&event) {
            index = handler.mapped_output_index(i);
        }
    }
    if let Some(i) = index {
        event.set("output_index", Json::number(i as u64));
    }
    let _ = apply_event_transformations_inplace(&mut event, ctx);
    hide_internal(&mut event, ctx.session);
    if let Some(id) = &handler.original_response_id {
        if let Some(mut response) = response_object(&event) {
            response.set("id", Json::text(id.as_str()));
            event.set("response", response);
        }
    }
    if event.has("sequence_number") {
        event.set("sequence_number", Json::number(*sequence_number));
        *sequence_number = *sequence_number + 1;
    }
    let text = match event_name {
        Some(n) => format_event(map_event_name(n), &event),
        None => {
            let mut t: String = "data: ".to_owned();
            t.append(print(&event).as_str());
            t.append("\n\n");
            t
        },
    };
    let ghost main = text@;
    texts.push(text);
    assert(views(texts@) =~= sent_first.push(main));
    if is_named(event_name, OUTPUT_ITEM_ADDED) {
        if let Some(t) = maybe_inject_tool_in_progress(&event, sequence_number) {
            let ghost before = views(texts@);
            let ghost view = t@;
            texts.push(t);
            assert(views(texts@) =~= before.push(view));
        }
    }
    texts
}

/// What is sent for an event, and the next sequence number: the arguments of
/// function calls are held back, and data that is no JSON goes through as it
/// came.
pub open spec fn sent_for(
    event: SseEventData<'_>,
    handler: StreamingToolHandler,
    ctx: StreamingEventContext<'_>,
    sequence: nat,
) -> (Seq<Seq<char>>, nat) {
    if event.name() == Some(FUNCTION_ARGUMENTS_DELTA@) {
        (Seq::empty(), sequence)
    } else {
        match json_of_text(event.data@) {
            Ok(parsed) => forwarded(event.name(), parsed, handler, ctx, sequence),
            Err(_) => (seq![event.raw_block@ + "\n\n"@], sequence),
        }
    }
}

/// What is sent to the client for an event, in order. The arguments of function
/// calls and the end of the response are held back; data that is no JSON goes
/// through as it came.
pub fn forward_streaming_event(
    event: &SseEventData<'_>,
    handler: &StreamingToolHandler,
    ctx: &StreamingEventContext<'_>,
    sequence_number: &mut u64,
) -> (texts: Vec<String>)
    requires
        *old(sequence_number) + 3 <= u64::MAX,
    ensures
        ({
            let f = sent_for(*event, *handler, *ctx, *old(sequence_number) as nat);
            views(texts@) == f.0 && *final(sequence_number) == f.1
        }),
{
    let mut texts: Vec<String> = Vec::new();
    assert(views(texts@) =~= Seq::<Seq<char>>::empty());
    if is_named(event.event_name, FUNCTION_ARGUMENTS_DELTA) {
        return texts;
    }
    match parse(event.data) {
        Ok(parsed) => forward_parsed_event(
            event.event_name,
            parsed,
            handler,
            ctx,
            sequence_number,
        ),
        Err(_) => {
            let mut chunk: String = event.raw_block.to_owned();
            chunk.append("\n\n");
            let ghost view = chunk@;
            texts.push(chunk);
            assert(views(texts@) =~= seq![view]);
            texts
        },
    }
}

/// The sequence number never goes back while events are forwarded, and goes on
/// by at most three for one event.
pub proof fn law_sequence_goes_on(
    name: Option<Seq<char>>,
    event: JsonView,
    handler: StreamingToolHandler,
    ctx: StreamingEventContext<'_>,
    sequence: nat,
)
    ensures
        sequence <= forwarded(name, event, handler, ctx, sequence).1 <= sequence + 3,
{
}

/// Of a call of an internal server's tool nothing is forwarded, neither its item
/// nor its arguments.
pub proof fn law_internal_calls_are_kept_back(
    name: Option<Seq<char>>,
    event: JsonView,
    handler: StreamingToolHandler,
    ctx: StreamingEventContext<'_>,
    sequence: nat,
)
    requires
        is_kept_back(name, event, handler, ctx.session),
    ensures
        forwarded(name, event, handler, ctx, sequence) == (Seq::<Seq<char>>::empty(), sequence),
{
}

/// The response that a forwarded event carries names nothing of an internal
/// server, neither among its tools nor in its output.
pub proof fn law_forwarded_response_hides_internal(
    event: JsonView,
    session: Option<&McpToolSession<'_>>,
    x: JsonView,
)
    requires
        event is Object,
    ensures
        with_public_response(event, session).get("response"@) matches Some(response) ==> (
        response is Object ==> {
            &&& response.get_items("tools"@) matches Some(list) ==> list.contains(x)
                ==> !is_internal_tool_value(x, session)
            &&& response.get_items("output"@) matches Some(items) ==> items.contains(x)
                ==> !is_internal_output_item(x, session)
        }),
{
    if let Some(response) = event.get("response"@) {
        if response is Object {
            law_stripped_hides_internal(response, session, x);
            lemma_get_after_set(
                event,
                "response"@,
                without_internal_tools(without_internal_output(response, session), session),
            );
        }
    }
}

/// The end of the model's response is never forwarded: the client gets one end,
/// when the loop is over.
pub proof fn law_completion_is_held_back(
    event: JsonView,
    handler: StreamingToolHandler,
    ctx: StreamingEventContext<'_>,
    sequence: nat,
)
    ensures
        forwarded(Some(RESPONSE_COMPLETED@), event, handler, ctx, sequence) == (
            Seq::<Seq<char>>::empty(),
            sequence,
        ),
{
}

// ---------------------------------------------------------------------------
// The end of a stream
// ---------------------------------------------------------------------------

/// A response under the identifier that the client knows.
pub open spec fn with_known_id(response: JsonView, id: Option<Seq<char>>) -> JsonView {
    match id {
        Some(i) => response.set("id"@, JsonView::Text(i)),
        None => response,
    }
}

/// The final response of a stream, as it is stored.
pub open spec fn final_response(
    response: JsonView,
    id: Option<Seq<char>>,
    state: ToolLoopState,
    ctx: StreamingEventContext<'_>,
    lists: Seq<JsonView>,
) -> JsonView {
    let known = with_known_id(response, id);
    let reported = match ctx.session {
        Some(s) => with_mcp_metadata(known, lists, public_items(state.items(), *s)),
        None => known,
    };
    patched(
        restored(reported, ctx.original_request.tools, ctx.session),
        *ctx.original_request,
        ctx.previous(),
    )
}

/// Brings the final response of a stream into the form for the client.
pub fn finish_response(
    response: Json,
    response_id: &Option<String>,
    state: &ToolLoopState,
    ctx: &StreamingEventContext<'_>,
    list_tools_items: Vec<Json>,
) -> (r: Json)
    requires
        ctx.has_lists(json_views(list_tools_items@)),
    ensures
        r@ == final_response(
            response@,
            opt_view(*response_id),
            *state,
            *ctx,
            json_views(list_tools_items@),
        ),
{
    let mut r = response;
    if let Some(id) = response_id {
        r.set("id", Json::text(id.as_str()));
    }
    if let Some(session) = ctx.session {
        inject_mcp_metadata_streaming(&mut r, state, session, list_tools_items);
    }
    restore_original_tools(&mut r, ctx.original_request, ctx.session);
    patch_response_with_request_metadata(&mut r, ctx.original_request, ctx.previous_response_id);
    r
}

/// The payload of the event that ends a stream.
pub open spec fn completed_payload(response: JsonView, sequence: nat) -> JsonView {
    JsonView::Object(
        seq![
            ("type"@, JsonView::Text(RESPONSE_COMPLETED@)),
            ("sequence_number"@, JsonView::Number(decimal(sequence))),
            ("response"@, response.set("status"@, JsonView::Text("completed"@))),
        ],
    )
}

/// The text of the last event of a stream.
pub open spec fn last_text(
    response: JsonView,
    handler: StreamingToolHandler,
    state: ToolLoopState,
    ctx: StreamingEventContext<'_>,
    lists: Seq<JsonView>,
    sequence: nat,
) -> Seq<char> {
    event_text(
        RESPONSE_COMPLETED@,
        completed_payload(
            final_response(response, opt_view(handler.original_response_id), state, ctx, lists),
            sequence,
        ),
    )
}

/// The event that ends a stream, where the whole response is known.
pub fn final_response_event(
    snapshot: Option<Json>,
    handler: &StreamingToolHandler,
    state: &ToolLoopState,
    ctx: &StreamingEventContext<'_>,
    list_tools_items: Vec<Json>,
    sequence_number: &mut u64,
) -> (text: Option<String>)
    requires
        ctx.has_lists(json_views(list_tools_items@)),
        *old(sequence_number) < u64::MAX,
    ensures
        opt_view(text) == (match snapshot {
            Some(response) => Some(
                last_text(
                    response@,
                    *handler,
                    *state,
                    *ctx,
                    json_views(list_tools_items@),
                    *old(sequence_number) as nat,
                ),
            ),
            None => None,
        }),
        match snapshot {
            None => text is None && *final(sequence_number) == *old(sequence_number),
            Some(response) => text matches Some(t) && t@ == event_text(
                RESPONSE_COMPLETED@,
                completed_payload(
                    final_response(
                        response@,
                        opt_view(handler.original_response_id),
                        *state,
                        *ctx,
                        json_views(list_tools_items@),
                    ),
                    *old(sequence_number) as nat,
                ),
            ) && *final(sequence_number) == *old(sequence_number) + 1,
        },
{
    match snapshot {
        None => None,
        Some(response) => {
            let mut done = finish_response(
                response,
                &handler.original_response_id,
                state,
                ctx,
                list_tools_items,
            );
            let ghost finished = done@;
            done.set("status", Json::text("completed"));
            let entries = Entries::new().with("type", Json::text(RESPONSE_COMPLETED)).with(
                "sequence_number",
                Json::number(*sequence_number),
            ).with("response", done);
            assert(entries@ =~= completed_payload(
                finished,
                *sequence_number as nat,
            )->Object_0);
            *sequence_number = *sequence_number + 1;
            Some(format_event(RESPONSE_COMPLETED, &entries.into_object()))
        },
    }
}

/// The texts that list the tools of several servers, one behind the other.
pub open spec fn listing(items: Seq<JsonView>, index: nat, sequence: nat) -> Seq<Seq<char>>
    decreases items.len(),
{
    if items.len() == 0 {
        Seq::empty()
    } else {
        let before = (items.len() - 1) as nat;
        listing(items.drop_last(), index, sequence) + list_tools_events(
            items.last(),
            index + before,
            sequence + 4 * before,
        )
    }
}

/// Lists the tools of the servers of a session, each at the next free place.
pub fn list_tools_texts(
    handler: &mut StreamingToolHandler,
    items: &Vec<Json>,
    sequence_number: &mut u64,
) -> (texts: Vec<String>)
    requires
        old(handler).next_output_index + items@.len() <= usize::MAX,
        *old(sequence_number) + 4 * items@.len() <= u64::MAX,
    ensures
        views(texts@) == listing(
            json_views(items@),
            old(handler).next_output_index as nat,
            *old(sequence_number) as nat,
        ),
        *final(sequence_number) == *old(sequence_number) + 4 * items@.len(),
        final(handler).next_output_index == old(handler).next_output_index + items@.len(),
        final(handler).pending_calls == old(handler).pending_calls,
        final(handler).index_map == old(handler).index_map,
        final(handler).original_response_id == old(handler).original_response_id,
{
    let ghost start = *sequence_number as nat;
    let ghost index = handler.next_output_index as nat;
    let mut texts: Vec<String> = Vec::new();
    assert(views(texts@) =~= Seq::<Seq<char>>::empty());
    let mut i: usize = 0;
    while i < items.len()
        invariant
            i <= items@.len(),
            index == old(handler).next_output_index,
            start == *old(sequence_number),
            index + items@.len() <= usize::MAX,
            start + 4 * items@.len() <= u64::MAX,
            handler.next_output_index == index + i,
            *sequence_number == start + 4 * i,
            handler.pending_calls == old(handler).pending_calls,
            handler.index_map == old(handler).index_map,
            handler.original_response_id == old(handler).original_response_id,
            views(texts@) == listing(json_views(items@).take(i as int), index, start),
        decreases items@.len() - i,
    {
        let at: usize = handler.allocate_synthetic_output_index();
        let ghost before = views(texts@);
        let mut events = mcp_list_tools_events(&items[i], at, sequence_number);
        let ghost more = views(events@);
        texts.append(&mut events);
        proof {
            assert(views(texts@) =~= before + more);
            let all = json_views(items@);
            assert(all.take(i + 1).drop_last() =~= all.take(i as int));
            assert(all.take(i + 1).last() == items@[i as int]@);
        }
        i += 1;
    }
    assert(json_views(items@).take(items@.len() as int) =~= json_views(items@));
    texts
}

/// The payload of an error event.
pub open spec fn error_payload(message: Seq<char>) -> JsonView {
    JsonView::Object(
        seq![("error"@, JsonView::Object(seq![("message"@, JsonView::Text(message))]))],
    )
}

/// The text of an error event.
pub fn error_event(message: &str) -> (text: String)
    ensures
        text@ == event_text("error"@, error_payload(message@)),
{
    let inner = Entries::new().with("message", Json::text(message));
    assert(inner@ =~= seq![("message"@, JsonView::Text(message@))]);
    let outer = Entries::new().with("error", inner.into_object());
    assert(outer@ =~= error_payload(message@)->Object_0);
    format_event("error", &outer.into_object())
}

} // verus!

//! The loop of model responses and tool calls within one request.

use vstd::prelude::*;

use crate::events::{
    is_call_type, is_function_call_type, CODE_INTERPRETER_COMPLETED, CODE_INTERPRETER_INTERPRETING,
    FILE_SEARCH_COMPLETED, FILE_SEARCH_SEARCHING, ITEM_CODE_INTERPRETER_CALL, ITEM_FILE_SEARCH_CALL,
    ITEM_FUNCTION, ITEM_FUNCTION_CALL, ITEM_FUNCTION_CALL_OUTPUT, ITEM_MCP_CALL,
    ITEM_MCP_LIST_TOOLS, ITEM_WEB_SEARCH_CALL, MCP_CALL_COMPLETED, MCP_LIST_TOOLS_COMPLETED,
    MCP_LIST_TOOLS_IN_PROGRESS, OUTPUT_ITEM_ADDED, OUTPUT_ITEM_DONE, WEB_SEARCH_COMPLETED,
    WEB_SEARCH_SEARCHING,
};
use crate::execution::{error_object, make_error_object, ToolExecutionInput};
use crate::inventory::ResponseFormat;
use crate::json::{clone_values, group_json_views, json_views, push_value, Entries, Json, JsonView};
use crate::mcp_utils::DEFAULT_MAX_ITERATIONS;
use crate::patch::{law_without_those, without_those};
use crate::request::{InputView, ResponseInput};
use crate::orchestrator::is_internal_server;
use crate::session::{
    binding_views, exposed_get, exposed_views, fallback_label, lists_servers,
    BindingView, McpServerBinding, McpToolSession,
};
use crate::sse::{event_text, format_event};
use crate::text::{after_prefix, decimal, opt_view, decimal_text, strip_prefix, text_eq, views};
use crate::wire::{json_of_text, parse, print, text_of_json};

verus! {

broadcast use vstd::string::group_string_axioms;

// ---------------------------------------------------------------------------
// State
// ---------------------------------------------------------------------------

/// State of the loop.
pub struct ToolLoopState {
    /// How many responses asked for tool calls.
    pub iteration: usize,
    /// How many tool calls were asked for.
    pub total_calls: usize,
    /// The calls and their results, as the model sees them.
    pub conversation_history: Vec<Json>,
    /// The input of the request.
    pub original_input: ResponseInput,
    /// The calls, as the client sees them.
    pub mcp_call_items: Vec<Json>,
}

/// What is recorded of a call for the model: the call.
pub open spec fn call_item(call_id: Seq<char>, name: Seq<char>, arguments: Seq<char>) -> JsonView {
    JsonView::Object(
        seq![
            ("type"@, JsonView::Text(ITEM_FUNCTION_CALL@)),
            ("call_id"@, JsonView::Text(call_id)),
            ("name"@, JsonView::Text(name)),
            ("arguments"@, JsonView::Text(arguments)),
        ],
    )
}

/// What is recorded of a call for the model: its result.
pub open spec fn call_output_item(call_id: Seq<char>, output: Seq<char>) -> JsonView {
    JsonView::Object(
        seq![
            ("type"@, JsonView::Text(ITEM_FUNCTION_CALL_OUTPUT@)),
            ("call_id"@, JsonView::Text(call_id)),
            ("output"@, JsonView::Text(output)),
        ],
    )
}

impl ToolLoopState {
    /// What the model sees of the calls.
    pub open spec fn history(self) -> Seq<JsonView> {
        json_views(self.conversation_history@)
    }

    /// What the client sees of the calls.
    pub open spec fn items(self) -> Seq<JsonView> {
        json_views(self.mcp_call_items@)
    }

    /// Whether every recorded call has its two items for the model and its one
    /// item for the client.
    pub open spec fn wf(self) -> bool {
        self.history().len() == 2 * self.items().len()
    }

    /// Whether this state has one call more than `before`: the call and its result
    /// behind the history, and the item of the call behind the items.
    pub open spec fn has_added(
        self,
        before: ToolLoopState,
        call: CallView,
        output: Seq<char>,
        item: JsonView,
    ) -> bool {
        &&& self.history() == before.history().push(call_item(call.0, call.1, call.2)).push(
            call_output_item(call.0, output),
        )
        &&& self.items() == before.items().push(item)
        &&& self.total_calls == before.total_calls
        &&& self.iteration == before.iteration
        &&& self.original_input == before.original_input
    }

    /// The state at the start of the loop.
    pub fn new(original_input: ResponseInput) -> (state: ToolLoopState)
        ensures
            state.wf(),
            state.iteration == 0,
            state.total_calls == 0,
            state.history() == Seq::<JsonView>::empty(),
            state.items() == Seq::<JsonView>::empty(),
            state.original_input == original_input,
    {
        let state = ToolLoopState {
            iteration: 0,
            total_calls: 0,
            conversation_history: Vec::new(),
            original_input,
            mcp_call_items: Vec::new(),
        };
        assert(state.history() =~= Seq::<JsonView>::empty());
        assert(state.items() =~= Seq::<JsonView>::empty());
        state
    }

    /// Records a call and its result, for the model and for the client.
    pub fn record_call(
        &mut self,
        call_id: &str,
        tool_name: &str,
        args_json_str: &str,
        output_str: &str,
        transformed_item: Json,
    )
        requires
            old(self).wf(),
        ensures
            final(self).wf(),
            final(self).iteration == old(self).iteration,
            final(self).total_calls == old(self).total_calls,
            final(self).original_input == old(self).original_input,
            final(self).history() == old(self).history().push(
                call_item(call_id@, tool_name@, args_json_str@),
            ).push(call_output_item(call_id@, output_str@)),
            final(self).items() == old(self).items().push(transformed_item@),
            final(self).has_added(
                *old(self),
                (call_id@, tool_name@, args_json_str@),
                output_str@,
                transformed_item@,
            ),
    {
        let call = Entries::new().with("type", Json::text(ITEM_FUNCTION_CALL)).with(
            "call_id",
            Json::text(call_id),
        ).with("name", Json::text(tool_name)).with("arguments", Json::text(args_json_str));
        assert(call@ =~= call_item(call_id@, tool_name@, args_json_str@)->Object_0);
        push_value(&mut self.conversation_history, call.into_object());
        let output = Entries::new().with("type", Json::text(ITEM_FUNCTION_CALL_OUTPUT)).with(
            "call_id",
            Json::text(call_id),
        ).with("output", Json::text(output_str));
        assert(output@ =~= call_output_item(call_id@, output_str@)->Object_0);
        push_value(&mut self.conversation_history, output.into_object());
        push_value(&mut self.mcp_call_items, transformed_item);
    }
}

// ---------------------------------------------------------------------------
// Payloads for the model
// ---------------------------------------------------------------------------

/// The function tools among the tools of a payload.
pub open spec fn function_tools(tools: Seq<JsonView>) -> Seq<JsonView>
    decreases tools.len(),
{
    if tools.len() == 0 {
        tools
    } else if tools.last().get_text("type"@) == Some(ITEM_FUNCTION@) {
        function_tools(tools.drop_last()).push(tools.last())
    } else {
        function_tools(tools.drop_last())
    }
}

/// A payload with function tools only: its own, then those of the session.
pub open spec fn with_function_tools(payload: JsonView, session_tools: Seq<JsonView>) -> JsonView {
    let retained = match payload.get_items("tools"@) {
        Some(tools) => function_tools(tools),
        None => Seq::empty(),
    };
    let all = retained + session_tools;
    if all.len() > 0 {
        payload.set("tools"@, JsonView::Array(all)).set("tool_choice"@, JsonView::Text("auto"@))
    } else if payload.get_items("tools"@) is Some {
        payload.set("tools"@, JsonView::Array(all))
    } else {
        payload
    }
}

/// The function tools among the tools of a payload.
fn keep_function_tools(tools: &Vec<Json>) -> (kept: Vec<Json>)
    ensures
        json_views(kept@) == function_tools(json_views(tools@)),
{
    let ghost all = json_views(tools@);
    let mut kept: Vec<Json> = Vec::new();
    assert(json_views(kept@) =~= function_tools(all.take(0)));
    for i in 0..tools.len()
        invariant
            all == json_views(tools@),
            json_views(kept@) == function_tools(all.take(i as int)),
    {
        proof {
            let next = all.take(i + 1);
            assert(next.drop_last() =~= all.take(i as int));
            assert(next.last() == tools@[i as int]@);
        }
        if tools[i].text_is("type", ITEM_FUNCTION) {
            push_value(&mut kept, tools[i].clone());
        }
    }
    assert(all.take(tools@.len() as int) =~= all);
    kept
}

/// Puts function tools in place of all others: those of the payload stay, and
/// those that the session offers follow.
pub fn prepare_mcp_tools_as_functions(payload: &mut Json, session_tools: Vec<Json>)
    ensures
        final(payload)@ == (if old(payload)@ is Object {
            with_function_tools(old(payload)@, json_views(session_tools@))
        } else {
            old(payload)@
        }),
{
    broadcast use group_json_views;

    if !payload.is_object() {
        return;
    }
    let given: Option<Vec<Json>> = match payload.get_array("tools") {
        Some(tools) => Some(keep_function_tools(tools)),
        None => None,
    };
    let had_tools: bool = given.is_some();
    let mut all: Vec<Json> = match given {
        Some(tools) => tools,
        None => Vec::new(),
    };
    let ghost retained = json_views(all@);
    proof {
        if !had_tools {
            assert(retained =~= Seq::<JsonView>::empty());
        }
    }
    let mut more = session_tools;
    all.append(&mut more);
    assert(json_views(all@) =~= retained + json_views(session_tools@));
    assert(json_views(all@).len() == all@.len());
    if all.len() > 0 {
        payload.set("tools", Json::Array(all));
        payload.set("tool_choice", Json::text("auto"));
    } else if had_tools {
        payload.set("tools", Json::Array(all));
    }
}

/// The text of a user as an input item.
pub open spec fn user_item(text: Seq<char>) -> JsonView {
    JsonView::Object(
        seq![
            ("type"@, JsonView::Text("message"@)),
            ("role"@, JsonView::Text("user"@)),
            (
                "content"@,
                JsonView::Array(
                    seq![
                        JsonView::Object(
                            seq![
                                ("type"@, JsonView::Text("input_text"@)),
                                ("text"@, JsonView::Text(text)),
                            ],
                        ),
                    ],
                ),
            ),
        ],
    )
}

/// The input of a request as items.
pub open spec fn input_items(input: InputView) -> Seq<JsonView> {
    match input {
        InputView::Text(text) => seq![user_item(text)],
        InputView::Items(items) => items,
    }
}

/// The text of a user as an input item.
fn make_user_item(text: &str) -> (json: Json)
    ensures
        json@ == user_item(text@),
{
    broadcast use group_json_views;

    let part = Entries::new().with("type", Json::text("input_text")).with("text", Json::text(text));
    assert(part@ =~= seq![
        ("type"@, JsonView::Text("input_text"@)),
        ("text"@, JsonView::Text(text@)),
    ]);
    let mut content: Vec<Json> = Vec::new();
    content.push(part.into_object());
    assert(json_views(content@) =~= seq![
        JsonView::Object(
            seq![
                ("type"@, JsonView::Text("input_text"@)),
                ("text"@, JsonView::Text(text@)),
            ],
        ),
    ]);
    let entries = Entries::new().with("type", Json::text("message")).with(
        "role",
        Json::text("user"),
    ).with("content", Json::Array(content));
    assert(entries@ =~= user_item(text@)->Object_0);
    entries.into_object()
}

/// The payload that goes on with a conversation: the input of the request, then
/// the calls so far; tools where there are any; not stored.
pub open spec fn resume_payload(
    base: JsonView,
    history: Seq<JsonView>,
    input: InputView,
    tools: JsonView,
    is_streaming: bool,
) -> JsonView {
    let with_input = base.set("input"@, JsonView::Array(input_items(input) + history));
    let with_tools = match tools {
        JsonView::Array(list) => if list.len() > 0 {
            with_input.set("tools"@, tools)
        } else {
            with_input
        },
        _ => with_input,
    };
    with_tools.set("stream"@, JsonView::Bool(is_streaming)).set("store"@, JsonView::Bool(false))
}

/// Builds the payload that goes on with a conversation.
pub fn build_resume_payload(
    base_payload: &Json,
    conversation_history: &Vec<Json>,
    original_input: &ResponseInput,
    tools_json: &Json,
    is_streaming: bool,
) -> (r: Result<Json, String>)
    ensures
        match r {
            Ok(payload) => base_payload@ is Object && payload@ == resume_payload(
                base_payload@,
                json_views(conversation_history@),
                original_input@,
                tools_json@,
                is_streaming,
            ),
            Err(e) => !(base_payload@ is Object) && e@ == "payload not an object"@,
        },
{
    broadcast use group_json_views;

    if !base_payload.is_object() {
        return Err("payload not an object".to_owned());
    }
    let mut payload = base_payload.clone();
    let mut input: Vec<Json> = match original_input {
        ResponseInput::Text(text) => {
            let mut list: Vec<Json> = Vec::new();
            list.push(make_user_item(text.as_str()));
            assert(json_views(list@) =~= seq![user_item(text@)]);
            list
        },
        ResponseInput::Items(items) => clone_values(items),
    };
    let ghost start = json_views(input@);
    let mut history = clone_values(conversation_history);
    let ghost past = json_views(history@);
    input.append(&mut history);
    assert(json_views(input@) =~= start + past);
    payload.set("input", Json::Array(input));
    if let Some(list) = tools_json.as_array() {
        assert(json_views(list@).len() == list@.len());
        if !list.is_empty() {
            payload.set("tools", tools_json.clone());
        }
    }
    payload.set("stream", Json::Bool(is_streaming));
    payload.set("store", Json::Bool(false));
    Ok(payload)
}

/// The payload that goes on with a conversation is never stored: only the
/// response to the client is.
pub proof fn law_resume_payload_is_not_stored(
    base: JsonView,
    history: Seq<JsonView>,
    input: InputView,
    tools: JsonView,
    is_streaming: bool,
)
    requires
        base is Object,
    ensures
        resume_payload(base, history, input, tools, is_streaming).get("store"@) == Some(
            JsonView::Bool(false),
        ),
{
    let with_input = base.set("input"@, JsonView::Array(input_items(input) + history));
    let with_tools = match tools {
        JsonView::Array(list) => if list.len() > 0 {
            with_input.set("tools"@, tools)
        } else {
            with_input
        },
        _ => with_input,
    };
    crate::json::lemma_get_after_set(
        with_tools.set("stream"@, JsonView::Bool(is_streaming)),
        "store"@,
        JsonView::Bool(false),
    );
}

// ---------------------------------------------------------------------------
// Calls that a response asks for
// ---------------------------------------------------------------------------

/// A function call of a response.
#[derive(Debug, PartialEq, Eq)]
pub struct ExtractedFunctionCall {
    pub call_id: String,
    pub name: String,
    pub arguments: String,
}

/// Identifier, name and arguments of a call.
pub type CallView = (Seq<char>, Seq<char>, Seq<char>);

impl View for ExtractedFunctionCall {
    type V = CallView;

    open spec fn view(&self) -> CallView {
        (self.call_id@, self.name@, self.arguments@)
    }
}

/// The views of a list of calls.
pub open spec fn call_views(list: Seq<ExtractedFunctionCall>) -> Seq<CallView> {
    Seq::new(list.len(), |i: int| list[i]@)
}

/// Whether an output item is a function call.
pub open spec fn is_call(item: JsonView) -> bool {
    match item.get_text("type"@) {
        Some(t) => is_call_type(t),
        None => false,
    }
}

/// The call that an output item asks for: it has a name, arguments, and an
/// identifier, which is its `call_id` or else its `id`.
pub open spec fn call_of(item: JsonView) -> Option<CallView> {
    let id = match item.get_text("call_id"@) {
        Some(s) => Some(s),
        None => item.get_text("id"@),
    };
    match (id, item.get_text("name"@), item.get_text("arguments"@)) {
        (Some(id), Some(name), Some(arguments)) => if is_call(item) {
            Some((id, name, arguments))
        } else {
            None
        },
        _ => None,
    }
}

/// The calls that a list of output items asks for.
pub open spec fn calls_of(items: Seq<JsonView>) -> Seq<CallView>
    decreases items.len(),
{
    if items.len() == 0 {
        Seq::empty()
    } else {
        match call_of(items.last()) {
            Some(c) => calls_of(items.drop_last()).push(c),
            None => calls_of(items.drop_last()),
        }
    }
}

/// The calls that a response asks for.
pub open spec fn response_calls(response: JsonView) -> Seq<CallView> {
    match response.get_items("output"@) {
        Some(items) => calls_of(items),
        None => Seq::empty(),
    }
}

/// Whether an output item is a function call.
fn item_is_call(item: &Json) -> (r: bool)
    ensures
        r == is_call(item@),
{
    match item.get_str("type") {
        Some(t) => is_function_call_type(t),
        None => false,
    }
}

/// The call that an output item asks for.
fn extract_call(item: &Json) -> (r: Option<ExtractedFunctionCall>)
    ensures
        match r {
            Some(c) => call_of(item@) == Some(c@),
            None => call_of(item@) is None,
        },
{
    if !item_is_call(item) {
        return None;
    }
    let call_id = match item.get_str("call_id") {
        Some(s) => Some(s),
        None => item.get_str("id"),
    };
    match (call_id, item.get_str("name"), item.get_str("arguments")) {
        (Some(call_id), Some(name), Some(arguments)) => Some(
            ExtractedFunctionCall {
                call_id: call_id.to_owned(),
                name: name.to_owned(),
                arguments: arguments.to_owned(),
            },
        ),
        _ => None,
    }
}

/// The calls that a response asks for, in their order.
pub fn extract_function_calls(resp: &Json) -> (calls: Vec<ExtractedFunctionCall>)
    ensures
        call_views(calls@) == response_calls(resp@),
{
    let mut calls: Vec<ExtractedFunctionCall> = Vec::new();
    assert(call_views(calls@) =~= Seq::<CallView>::empty());
    if let Some(items) = resp.get_array("output") {
        let ghost all = json_views(items@);
        for i in 0..items.len()
            invariant
                all == json_views(items@),
                call_views(calls@) == calls_of(all.take(i as int)),
        {
            proof {
                let next = all.take(i + 1);
                assert(next.drop_last() =~= all.take(i as int));
                assert(next.last() == items@[i as int]@);
            }
            if let Some(c) = extract_call(&items[i]) {
                let ghost before = call_views(calls@);
                let ghost view = c@;
                calls.push(c);
                assert(call_views(calls@) =~= before.push(view));
            }
        }
        assert(all.take(items@.len() as int) =~= all);
    }
    calls
}

// ---------------------------------------------------------------------------
// What the client sees of the calls
// ---------------------------------------------------------------------------

/// Whether an item names an internal server.
pub open spec fn names_internal(item: JsonView, session: McpToolSession<'_>) -> bool {
    match item.get_text("server_label"@) {
        Some(label) => session.label_is_internal(label),
        None => false,
    }
}

/// The items that do not name an internal server.
pub open spec fn public_items(items: Seq<JsonView>, session: McpToolSession<'_>) -> Seq<JsonView>
    decreases items.len(),
{
    if items.len() == 0 {
        items
    } else if names_internal(items.last(), session) {
        public_items(items.drop_last(), session)
    } else {
        public_items(items.drop_last(), session).push(items.last())
    }
}

proof fn lemma_public_items(items: Seq<JsonView>, session: McpToolSession<'_>)
    ensures
        public_items(items, session) == without_those(
            items,
            |item: JsonView| names_internal(item, session),
        ),
    decreases items.len(),
{
    if items.len() > 0 {
        lemma_public_items(items.drop_last(), session);
    }
}

/// Of the recorded calls the client sees exactly those that do not name an
/// internal server.
pub proof fn law_reported_calls_are_public(
    items: Seq<JsonView>,
    session: McpToolSession<'_>,
    x: JsonView,
)
    ensures
        public_items(items, session).contains(x) <==> items.contains(x) && !names_internal(
            x,
            session,
        ),
{
    lemma_public_items(items, session);
    law_without_those(items, |item: JsonView| names_internal(item, session), x);
}

/// The servers whose tools are listed for the client: those that are shown and
/// whose label is not that of an internal one.
pub open spec fn listed_servers(servers: Seq<BindingView>, session: McpToolSession<'_>) -> Seq<
    BindingView,
>
    decreases servers.len(),
{
    if servers.len() == 0 {
        servers
    } else if session.label_is_internal(servers.last().label) {
        listed_servers(servers.drop_last(), session)
    } else {
        listed_servers(servers.drop_last(), session).push(servers.last())
    }
}

/// Whether there is one list of tools for each server whose tools are listed,
/// under its label.
pub open spec fn are_lists_for(lists: Seq<JsonView>, session: McpToolSession<'_>) -> bool {
    lists_servers(lists, listed_servers(binding_views(session.mcp_servers@), session))
}

proof fn lemma_listed_servers(servers: Seq<BindingView>, session: McpToolSession<'_>, i: int)
    requires
        0 <= i < listed_servers(servers, session).len(),
    ensures
        !session.label_is_internal(listed_servers(servers, session)[i].label),
    decreases servers.len(),
{
    if servers.len() > 0 {
        let rest = listed_servers(servers.drop_last(), session);
        if i < rest.len() {
            lemma_listed_servers(servers.drop_last(), session, i);
        }
    }
}

/// No list of tools that the client gets stands under the label of an internal
/// server.
pub proof fn law_internal_servers_are_not_listed(
    lists: Seq<JsonView>,
    session: McpToolSession<'_>,
    at: int,
    i: int,
)
    requires
        are_lists_for(lists, session),
        0 <= at < session.all_mcp_servers@.len(),
        is_internal_server(
            session.orchestrator@.records,
            session.orchestrator.config.servers@,
            session.all_mcp_servers@[at].server_key@,
        ),
        0 <= i < lists.len(),
    ensures
        lists[i].get_text("server_label"@) != Some(session.all_mcp_servers@[at].label@),
{
    assert(session.label_is_internal(session.all_mcp_servers@[at].label@));
    lemma_listed_servers(binding_views(session.mcp_servers@), session, i);
}

/// The output without lists of tools.
pub open spec fn without_tool_lists(items: Seq<JsonView>) -> Seq<JsonView>
    decreases items.len(),
{
    if items.len() == 0 {
        items
    } else if items.last().get_text("type"@) == Some(ITEM_MCP_LIST_TOOLS@) {
        without_tool_lists(items.drop_last())
    } else {
        without_tool_lists(items.drop_last()).push(items.last())
    }
}

/// Whether an item names an internal server.
pub fn is_internal_mcp_response_item(item: &Json, session: &McpToolSession<'_>) -> (r: bool)
    ensures
        r == names_internal(item@, *session),
{
    match item.get_str("server_label") {
        Some(label) => session.is_internal_server_label(label),
        None => false,
    }
}

/// The items that do not name an internal server.
fn keep_public(items: &Vec<Json>, session: &McpToolSession<'_>) -> (kept: Vec<Json>)
    ensures
        json_views(kept@) == public_items(json_views(items@), *session),
{
    let ghost all = json_views(items@);
    let mut kept: Vec<Json> = Vec::new();
    assert(json_views(kept@) =~= public_items(all.take(0), *session));
    for i in 0..items.len()
        invariant
            all == json_views(items@),
            json_views(kept@) == public_items(all.take(i as int), *session),
    {
        proof {
            let next = all.take(i + 1);
            assert(next.drop_last() =~= all.take(i as int));
            assert(next.last() == items@[i as int]@);
        }
        if !is_internal_mcp_response_item(&items[i], session) {
            push_value(&mut kept, items[i].clone());
        }
    }
    assert(all.take(items@.len() as int) =~= all);
    kept
}

/// The output without lists of tools.
fn drop_tool_lists(items: &Vec<Json>) -> (kept: Vec<Json>)
    ensures
        json_views(kept@) == without_tool_lists(json_views(items@)),
{
    let ghost all = json_views(items@);
    let mut kept: Vec<Json> = Vec::new();
    assert(json_views(kept@) =~= without_tool_lists(all.take(0)));
    for i in 0..items.len()
        invariant
            all == json_views(items@),
            json_views(kept@) == without_tool_lists(all.take(i as int)),
    {
        proof {
            let next = all.take(i + 1);
            assert(next.drop_last() =~= all.take(i as int));
            assert(next.last() == items@[i as int]@);
        }
        if !items[i].text_is("type", ITEM_MCP_LIST_TOOLS) {
            push_value(&mut kept, items[i].clone());
        }
    }
    assert(all.take(items@.len() as int) =~= all);
    kept
}

/// The servers whose tools are listed for the client.
pub fn servers_to_list(session: &McpToolSession<'_>) -> (servers: Vec<McpServerBinding>)
    ensures
        binding_views(servers@) == listed_servers(binding_views(session.mcp_servers@), *session),
{
    let ghost all = binding_views(session.mcp_servers@);
    let mut servers: Vec<McpServerBinding> = Vec::new();
    assert(binding_views(servers@) =~= listed_servers(all.take(0), *session));
    for i in 0..session.mcp_servers.len()
        invariant
            all == binding_views(session.mcp_servers@),
            binding_views(servers@) == listed_servers(all.take(i as int), *session),
    {
        proof {
            let next = all.take(i + 1);
            assert(next.drop_last() =~= all.take(i as int));
            assert(next.last() == session.mcp_servers@[i as int]@);
        }
        let binding = &session.mcp_servers[i];
        if !session.is_internal_server_label(binding.label.as_str()) {
            let ghost before = binding_views(servers@);
            servers.push(binding.clone());
            assert(binding_views(servers@) =~= before.push(binding@));
        }
    }
    assert(all.take(session.mcp_servers@.len() as int) =~= all);
    servers
}

/// A response with the lists of tools and the calls in front of its output.
pub open spec fn with_mcp_metadata(
    response: JsonView,
    lists: Seq<JsonView>,
    calls: Seq<JsonView>,
) -> JsonView {
    let kept = match response.get_items("output"@) {
        Some(items) => without_tool_lists(items),
        None => Seq::empty(),
    };
    response.set("output"@, JsonView::Array(lists + calls + kept))
}

/// Puts the lists of tools, one for each server whose tools are listed, and the
/// calls in front of the output of a response. Lists that were there leave, and
/// nothing internal comes in.
pub fn inject_mcp_metadata_streaming(
    response: &mut Json,
    state: &ToolLoopState,
    session: &McpToolSession<'_>,
    list_tools_items: Vec<Json>,
)
    requires
        are_lists_for(json_views(list_tools_items@), *session),
    ensures
        final(response)@ == with_mcp_metadata(
            old(response)@,
            json_views(list_tools_items@),
            public_items(state.items(), *session),
        ),
{
    broadcast use group_json_views;

    let mut output = list_tools_items;
    let ghost lists = json_views(output@);
    let mut calls = keep_public(&state.mcp_call_items, session);
    let ghost called = json_views(calls@);
    output.append(&mut calls);
    let mut kept: Vec<Json> = match response.get_array("output") {
        Some(items) => drop_tool_lists(items),
        None => Vec::new(),
    };
    let ghost rest = json_views(kept@);
    proof {
        if response@.get_items("output"@) is None {
            assert(rest =~= Seq::<JsonView>::empty());
        }
    }
    output.append(&mut kept);
    assert(json_views(output@) =~= lists + called + rest);
    response.set("output", Json::Array(output));
}

/// A call as the client sees it.
pub open spec fn mcp_call_item(
    id: Seq<char>,
    name: Seq<char>,
    arguments: Seq<char>,
    output: Seq<char>,
    label: Seq<char>,
    success: bool,
    error: Option<Seq<char>>,
) -> JsonView {
    JsonView::Object(
        seq![
            ("id"@, JsonView::Text(id)),
            ("type"@, JsonView::Text(ITEM_MCP_CALL@)),
            (
                "status"@,
                JsonView::Text(
                    if success {
                        "completed"@
                    } else {
                        "failed"@
                    },
                ),
            ),
            ("approval_request_id"@, JsonView::Null),
            ("arguments"@, JsonView::Text(arguments)),
            (
                "error"@,
                match error {
                    Some(e) => JsonView::Text(e),
                    None => JsonView::Null,
                },
            ),
            ("name"@, JsonView::Text(name)),
            ("output"@, JsonView::Text(output)),
            ("server_label"@, JsonView::Text(label)),
        ],
    )
}

/// A call as the client sees it, under the identifier `id`.
pub fn build_mcp_call_item(
    id: &str,
    tool_name: &str,
    arguments: &str,
    output: &str,
    server_label: &str,
    success: bool,
    error: Option<&str>,
) -> (item: Json)
    ensures
        item@ == mcp_call_item(
            id@,
            tool_name@,
            arguments@,
            output@,
            server_label@,
            success,
            match error {
                Some(e) => Some(e@),
                None => None,
            },
        ),
{
    let status = if success {
        "completed"
    } else {
        "failed"
    };
    let error_value = match error {
        Some(e) => Json::text(e),
        None => Json::Null,
    };
    let entries = Entries::new().with("id", Json::text(id)).with(
        "type",
        Json::text(ITEM_MCP_CALL),
    ).with("status", Json::text(status)).with("approval_request_id", Json::Null).with(
        "arguments",
        Json::text(arguments),
    ).with("error", error_value).with("name", Json::text(tool_name)).with(
        "output",
        Json::text(output),
    ).with("server_label", Json::text(server_label));
    assert(entries@ =~= mcp_call_item(
        id@,
        tool_name@,
        arguments@,
        output@,
        server_label@,
        success,
        match error {
            Some(e) => Some(e@),
            None => None,
        },
    )->Object_0);
    entries.into_object()
}

/// What the client is told of a call that was not made.
pub open spec fn not_executed_text() -> Seq<char> {
    "Not executed - response stopped due to limit"@
}

/// The label of the server behind an exposed name.
pub open spec fn tool_label(session: McpToolSession<'_>, name: Seq<char>) -> Seq<char> {
    match exposed_get(exposed_views(session.exposed@), name) {
        Some(e) => e.server_label,
        None => fallback_label(binding_views(session.all_mcp_servers@)),
    }
}

/// A call that was not made, as the client sees it.
pub open spec fn incomplete_item(
    item: JsonView,
    id: Seq<char>,
    session: McpToolSession<'_>,
) -> JsonView {
    let name = match item.get_text("name"@) {
        Some(n) => n,
        None => Seq::empty(),
    };
    let arguments = match item.get_text("arguments"@) {
        Some(a) => a,
        None => "{}"@,
    };
    mcp_call_item(
        id,
        name,
        arguments,
        Seq::empty(),
        tool_label(session, name),
        false,
        Some(not_executed_text()),
    )
}

/// The function calls among output items.
pub open spec fn only_calls(items: Seq<JsonView>) -> Seq<JsonView>
    decreases items.len(),
{
    if items.len() == 0 {
        items
    } else if is_call(items.last()) {
        only_calls(items.drop_last()).push(items.last())
    } else {
        only_calls(items.drop_last())
    }
}

/// The calls that were not made, as the client sees them.
pub open spec fn incomplete_items(
    calls: Seq<JsonView>,
    ids: Seq<Seq<char>>,
    session: McpToolSession<'_>,
) -> Seq<JsonView> {
    Seq::new(calls.len(), |i: int| incomplete_item(calls[i], ids[i], session))
}

/// How many function calls a response has in its output.
pub open spec fn call_count(response: JsonView) -> nat {
    match response.get_items("output"@) {
        Some(items) => only_calls(items).len(),
        None => 0,
    }
}

/// The note on a loop that was cut short.
pub open spec fn truncation_text(iteration: nat, calls: nat, reason: Seq<char>) -> Seq<char> {
    "Loop terminated at "@ + decimal(iteration) + " iterations, "@ + decimal(calls)
        + " total calls (reason: "@ + reason + ")"@
}

/// The output of a response that was cut short: the lists of tools, the calls
/// that were made, those that were not, then what was there.
pub open spec fn incomplete_output(
    response: JsonView,
    state: ToolLoopState,
    session: McpToolSession<'_>,
    lists: Seq<JsonView>,
    ids: Seq<Seq<char>>,
) -> JsonView {
    match response.get_items("output"@) {
        Some(items) => {
            let open_calls = incomplete_items(only_calls(items), ids, session);
            if state.total_calls > 0 || open_calls.len() > 0 {
                response.set(
                    "output"@,
                    JsonView::Array(
                        lists + public_items(state.items(), session) + public_items(
                            open_calls,
                            session,
                        ) + items,
                    ),
                )
            } else {
                response
            }
        },
        None => response,
    }
}

/// A response with a note in `metadata.mcp`, where it has that object.
pub open spec fn with_truncation_note(response: JsonView, note: Seq<char>) -> JsonView {
    match response.get("metadata"@) {
        Some(metadata) => match metadata.get("mcp"@) {
            Some(mcp) => if mcp is Object {
                response.set(
                    "metadata"@,
                    metadata.set(
                        "mcp"@,
                        mcp.set("truncation_warning"@, JsonView::Text(note)),
                    ),
                )
            } else {
                response
            },
            None => response,
        },
        None => response,
    }
}

/// A JSON object that gives a reason.
pub open spec fn reason_object(reason: Seq<char>) -> JsonView {
    JsonView::Object(seq![("reason"@, JsonView::Text(reason))])
}

/// A response that was cut short.
pub open spec fn incomplete_response(
    response: JsonView,
    state: ToolLoopState,
    reason: Seq<char>,
    session: McpToolSession<'_>,
    lists: Seq<JsonView>,
    ids: Seq<Seq<char>>,
) -> JsonView {
    let marked = response.set("status"@, JsonView::Text("completed"@)).set(
        "incomplete_details"@,
        reason_object(reason),
    );
    with_truncation_note(
        incomplete_output(marked, state, session, lists, ids),
        truncation_text(state.iteration as nat, state.total_calls as nat, reason),
    )
}

proof fn lemma_marked_output(response: JsonView, reason: Seq<char>)
    ensures
        response.set("status"@, JsonView::Text("completed"@)).set(
            "incomplete_details"@,
            reason_object(reason),
        ).get("output"@) == response.get("output"@),
{
    reveal_strlit("status");
    reveal_strlit("incomplete_details");
    reveal_strlit("output");
    assert("status"@[0] == 's' && "output"@[0] == 'o');
    assert("incomplete_details"@.len() == 18 && "output"@.len() == 6);
    crate::json::lemma_set_keeps_others(
        response,
        "status"@,
        JsonView::Text("completed"@),
        "output"@,
    );
    crate::json::lemma_set_keeps_others(
        response.set("status"@, JsonView::Text("completed"@)),
        "incomplete_details"@,
        reason_object(reason),
        "output"@,
    );
}

/// How many function calls a response has in its output: so many identifiers
/// are needed to report them.
pub fn open_call_count(response: &Json) -> (n: usize)
    ensures
        n == call_count(response@),
{
    match response.get_array("output") {
        Some(items) => {
            let ghost all = json_views(items@);
            let mut n: usize = 0;
            for i in 0..items.len()
                invariant
                    all == json_views(items@),
                    n == only_calls(all.take(i as int)).len(),
                    n <= i,
            {
                proof {
                    let next = all.take(i + 1);
                    assert(next.drop_last() =~= all.take(i as int));
                    assert(next.last() == items@[i as int]@);
                }
                if item_is_call(&items[i]) {
                    n += 1;
                }
            }
            assert(all.take(items@.len() as int) =~= all);
            n
        },
        None => 0,
    }
}

/// A call that was not made, as the client sees it.
fn make_incomplete_item(item: &Json, id: &str, session: &McpToolSession<'_>) -> (r: Json)
    ensures
        r@ == incomplete_item(item@, id@, *session),
{
    proof {
        reveal_strlit("");
        assert(""@ =~= Seq::<char>::empty());
    }
    let name = match item.get_str("name") {
        Some(n) => n,
        None => "",
    };
    let arguments = match item.get_str("arguments") {
        Some(a) => a,
        None => "{}",
    };
    let label = session.resolve_tool_server_label(name);
    build_mcp_call_item(
        id,
        name,
        arguments,
        "",
        label.as_str(),
        false,
        Some("Not executed - response stopped due to limit"),
    )
}

/// The calls of a response that were not made, as the client sees them.
fn make_incomplete_items(
    items: &Vec<Json>,
    ids: &Vec<String>,
    session: &McpToolSession<'_>,
) -> (r: Vec<Json>)
    requires
        ids@.len() == only_calls(json_views(items@)).len(),
    ensures
        json_views(r@) == incomplete_items(
            only_calls(json_views(items@)),
            views(ids@),
            *session,
        ),
{
    let ghost all = json_views(items@);
    let ghost calls = only_calls(all);
    let mut r: Vec<Json> = Vec::new();
    for i in 0..items.len()
        invariant
            all == json_views(items@),
            calls == only_calls(all),
            ids@.len() == calls.len(),
            r@.len() == only_calls(all.take(i as int)).len(),
            only_calls(all.take(i as int)) == calls.take(r@.len() as int),
            r@.len() <= calls.len(),
            forall|j: int|
                0 <= j < r@.len() ==> (#[trigger] r@[j])@ == incomplete_item(
                    calls[j],
                    ids@[j]@,
                    *session,
                ),
    {
        proof {
            let next = all.take(i + 1);
            assert(next.drop_last() =~= all.take(i as int));
            assert(next.last() == items@[i as int]@);
            lemma_calls_prefix(all, i + 1);
        }
        if item_is_call(&items[i]) {
            let n: usize = r.len();
            proof {
                assert(only_calls(all.take(i + 1)) == calls.take(n as int).push(
                    items@[i as int]@,
                ));
                assert(only_calls(all.take(i + 1))[n as int] == calls[n as int]);
            }
            r.push(make_incomplete_item(&items[i], ids[n].as_str(), session));
        }
    }
    assert(all.take(items@.len() as int) =~= all);
    assert(json_views(r@) =~= incomplete_items(calls, views(ids@), *session));
    r
}

proof fn lemma_calls_prefix(items: Seq<JsonView>, n: int)
    requires
        0 <= n <= items.len(),
    ensures
        only_calls(items.take(n)).len() <= only_calls(items).len(),
        only_calls(items.take(n)) == only_calls(items).take(only_calls(items.take(n)).len() as int),
    decreases items.len(),
{
    if n < items.len() {
        lemma_calls_prefix(items.drop_last(), n);
        assert(items.drop_last().take(n) =~= items.take(n));
        let k = only_calls(items.take(n)).len() as int;
        assert(only_calls(items).take(k) =~= only_calls(items.drop_last()).take(k));
    } else {
        assert(items.take(n) =~= items);
        assert(only_calls(items).take(only_calls(items).len() as int) =~= only_calls(items));
    }
}

/// Builds the response for a loop that was cut short: what was done is
/// reported, and so are the calls that were not made. `list_tools_items` has a
/// list for each server whose tools are listed, `ids` an identifier for each
/// call that was not made.
pub fn build_incomplete_response(
    response: Json,
    state: &ToolLoopState,
    reason: &str,
    session: &McpToolSession<'_>,
    list_tools_items: Vec<Json>,
    ids: &Vec<String>,
) -> (r: Result<Json, String>)
    requires
        are_lists_for(json_views(list_tools_items@), *session),
        ids@.len() == call_count(response@),
    ensures
        match r {
            Ok(out) => response@ is Object && out@ == incomplete_response(
                response@,
                *state,
                reason@,
                *session,
                json_views(list_tools_items@),
                views(ids@),
            ),
            Err(e) => !(response@ is Object) && e@ == "response not an object"@,
        },
{
    broadcast use group_json_views;

    if !response.is_object() {
        return Err("response not an object".to_owned());
    }
    let mut out = response;
    proof {
        lemma_marked_output(out@, reason@);
    }
    out.set("status", Json::text("completed"));
    let details = Entries::new().with("reason", Json::text(reason));
    assert(details@ =~= seq![("reason"@, JsonView::Text(reason@))]);
    out.set("incomplete_details", details.into_object());
    let ghost marked = out@;
    let ghost lists = json_views(list_tools_items@);
    let new_output: Option<Vec<Json>> = match out.get_array("output") {
        Some(items) => {
            let open_calls = make_incomplete_items(items, ids, session);
            assert(json_views(open_calls@).len() == open_calls@.len());
            if state.total_calls > 0 || !open_calls.is_empty() {
                let mut output = list_tools_items;
                let mut made = keep_public(&state.mcp_call_items, session);
                let ghost made_view = json_views(made@);
                output.append(&mut made);
                let mut not_made = keep_public(&open_calls, session);
                let ghost not_made_view = json_views(not_made@);
                output.append(&mut not_made);
                let mut rest = clone_values(items);
                let ghost rest_view = json_views(rest@);
                output.append(&mut rest);
                assert(json_views(output@) =~= lists + made_view + not_made_view + rest_view);
                Some(output)
            } else {
                None
            }
        },
        None => None,
    };
    if let Some(output) = new_output {
        out.set("output", Json::Array(output));
    }
    assert(out@ == incomplete_output(marked, *state, *session, lists, views(ids@)));
    let new_metadata: Option<Json> = match out.get("metadata") {
        Some(metadata) => match metadata.get("mcp") {
            Some(mcp) => if mcp.is_object() {
                let mut note: String = "Loop terminated at ".to_owned();
                note.append(decimal_text(state.iteration as u64).as_str());
                note.append(" iterations, ");
                note.append(decimal_text(state.total_calls as u64).as_str());
                note.append(" total calls (reason: ");
                note.append(reason);
                note.append(")");
                let mut new_mcp = mcp.clone();
                new_mcp.set("truncation_warning", Json::text(note.as_str()));
                let mut changed = metadata.clone();
                changed.set("mcp", new_mcp);
                Some(changed)
            } else {
                None
            },
            None => None,
        },
        None => None,
    };
    if let Some(metadata) = new_metadata {
        out.set("metadata", metadata);
    }
    Ok(out)
}

// ---------------------------------------------------------------------------
// The loop without streaming
// ---------------------------------------------------------------------------

/// The most tool calls for a request: what it asks for, within the limit of the
/// gateway.
pub open spec fn call_limit(max_tool_calls: Option<u32>) -> nat {
    match max_tool_calls {
        Some(n) => if n < DEFAULT_MAX_ITERATIONS {
            n as nat
        } else {
            DEFAULT_MAX_ITERATIONS as nat
        },
        None => DEFAULT_MAX_ITERATIONS as nat,
    }
}

/// The most tool calls for a request.
pub fn effective_limit(max_tool_calls: Option<u32>) -> (limit: usize)
    ensures
        limit == call_limit(max_tool_calls),
        limit <= DEFAULT_MAX_ITERATIONS,
{
    match max_tool_calls {
        Some(n) => {
            if (n as usize) < DEFAULT_MAX_ITERATIONS {
                n as usize
            } else {
                DEFAULT_MAX_ITERATIONS
            }
        },
        None => DEFAULT_MAX_ITERATIONS,
    }
}

/// The loop of one request: its state, what it sends to the model, and the
/// calls of the current response that are still to be made, the next one last.
pub struct ToolLoop {
    pub state: ToolLoopState,
    pub base_payload: Json,
    pub tools_json: Json,
    pub limit: usize,
    pub queue: Vec<ExtractedFunctionCall>,
}

/// What follows on a response of the model.
#[derive(Debug, Clone, Copy, PartialEq, Eq, Structural)]
pub enum ResponseStep {
    /// The response is final; the calls are reported in it where there were
    /// any.
    Finish { report_calls: bool },
    /// The response asks for calls.
    MakeCalls,
}

/// What follows while the calls of a response are made.
pub enum CallStep {
    /// The limit is reached.
    LimitReached,
    /// The tool is called.
    Execute { call: ExtractedFunctionCall, input: ToolExecutionInput },
    /// The arguments are no JSON: the call is answered with `output`, and the
    /// client sees the error.
    Invalid {
        call: ExtractedFunctionCall,
        output: String,
        error: Json,
        response_format: ResponseFormat,
        server_label: String,
    },
    /// All calls are made; the conversation goes on with this payload, or
    /// cannot go on.
    Resume(Result<Json, String>),
}

/// The calls of a list, the last one first.
pub open spec fn pending(queue: Seq<ExtractedFunctionCall>) -> Seq<CallView> {
    call_views(queue).reverse()
}

impl ToolLoop {
    /// What always holds of a loop: no more calls than the limit are made, and
    /// only so many are recorded.
    pub open spec fn wf(self) -> bool {
        &&& self.state.wf()
        &&& self.limit <= DEFAULT_MAX_ITERATIONS
        &&& self.state.total_calls <= self.limit
        &&& self.state.items().len() <= self.state.total_calls
        &&& self.state.iteration <= self.state.total_calls + (if self.queue@.len() > 0 {
            1int
        } else {
            0
        })
    }

    /// Whether this is the start of a loop with a payload and an input.
    pub open spec fn is_start(
        self,
        payload: JsonView,
        input: InputView,
        max_tool_calls: Option<u32>,
    ) -> bool {
        &&& self.base_payload@ == payload
        &&& self.tools_json@ == ToolLoop::payload_tools(payload)
        &&& self.limit == call_limit(max_tool_calls)
        &&& self.state.original_input@ == input
        &&& self.state.history().len() == 0
        &&& self.state.items().len() == 0
        &&& self.state.total_calls == 0
        &&& self.queue@.len() == 0
    }

    /// Whether `step` follows on a response: its calls wait, in their order, and are
    /// made; without calls it is the last one.
    pub open spec fn has_taken(
        self,
        before: ToolLoop,
        response: JsonView,
        step: ResponseStep,
    ) -> bool {
        &&& pending(self.queue@) == response_calls(response)
        &&& self.state.history() == before.state.history()
        &&& self.state.items() == before.state.items()
        &&& self.state.total_calls == before.state.total_calls
        &&& step == (if response_calls(response).len() == 0 {
            ResponseStep::Finish { report_calls: before.state.total_calls > 0 }
        } else {
            ResponseStep::MakeCalls
        })
    }

    /// Whether `step` is the next one: the call that waits longest is made, answered
    /// where its arguments cannot be read, or refused where the limit is reached;
    /// without a waiting call the conversation goes on.
    pub open spec fn is_next(self, step: CallStep, session: McpToolSession<'_>) -> bool {
        let waiting = pending(self.queue@);
        if waiting.len() == 0 {
            match step {
                CallStep::Resume(Ok(payload)) => self.base_payload@ is Object && payload@
                    == resume_payload(
                    self.base_payload@,
                    self.state.history(),
                    self.state.original_input@,
                    self.tools_json@,
                    false,
                ),
                CallStep::Resume(Err(_)) => !(self.base_payload@ is Object),
                _ => false,
            }
        } else if self.state.total_calls >= self.limit {
            step is LimitReached
        } else {
            match (json_of_text(waiting[0].2), step) {
                (Ok(arguments), CallStep::Execute { call, input }) => call@ == waiting[0]
                    && input.call_id@ == waiting[0].0 && input.tool_name@ == waiting[0].1
                    && input.arguments@ == arguments,
                (
                    Err(e),
                    CallStep::Invalid { call, output, error, response_format, server_label },
                ) => call@ == waiting[0] && output@ == "Invalid tool arguments: "@ + e && error@
                    == error_object(output@) && response_format == session.format_of(waiting[0].1)
                    && server_label@ == tool_label(session, waiting[0].1),
                _ => false,
            }
        }
    }

    /// The tools of a payload; none where it has no such entry.
    pub open spec fn payload_tools(payload: JsonView) -> JsonView {
        match payload.get("tools"@) {
            Some(tools) => tools,
            None => JsonView::Array(Seq::empty()),
        }
    }

    /// The loop of a request that starts with `initial_payload`.
    pub fn new(initial_payload: Json, input: ResponseInput, max_tool_calls: Option<u32>) -> (r:
        ToolLoop)
        ensures
            r.wf(),
            r.state.iteration == 0,
            r.state.total_calls == 0,
            r.state.original_input == input,
            r.base_payload@ == initial_payload@,
            r.tools_json@ == ToolLoop::payload_tools(initial_payload@),
            r.is_start(initial_payload@, input@, max_tool_calls),
            r.limit == call_limit(max_tool_calls),
            r.queue@.len() == 0,
    {
        broadcast use group_json_views;

        let tools_json = match initial_payload.get("tools") {
            Some(tools) => tools.clone(),
            None => {
                let none: Vec<Json> = Vec::new();
                assert(json_views(none@) =~= Seq::<JsonView>::empty());
                Json::Array(none)
            },
        };
        ToolLoop {
            state: ToolLoopState::new(input),
            base_payload: initial_payload,
            tools_json,
            limit: effective_limit(max_tool_calls),
            queue: Vec::new(),
        }
    }

    /// Takes in a response of the model.
    pub fn on_response(&mut self, response: &Json) -> (step: ResponseStep)
        requires
            old(self).wf(),
            old(self).queue@.len() == 0,
        ensures
            final(self).wf(),
            final(self).base_payload == old(self).base_payload,
            final(self).tools_json == old(self).tools_json,
            final(self).limit == old(self).limit,
            final(self).state.total_calls == old(self).state.total_calls,
            final(self).state.conversation_history == old(self).state.conversation_history,
            final(self).state.mcp_call_items == old(self).state.mcp_call_items,
            final(self).state.original_input == old(self).state.original_input,
            pending(final(self).queue@) == response_calls(response@),
            final(self).has_taken(*old(self), response@, step),
            if response_calls(response@).len() == 0 {
                &&& step == ResponseStep::Finish { report_calls: old(self).state.total_calls > 0 }
                &&& final(self).state.iteration == old(self).state.iteration
            } else {
                &&& step == ResponseStep::MakeCalls
                &&& final(self).state.iteration == old(self).state.iteration + 1
            },
    {
        let calls = extract_function_calls(response);
        let ghost all = call_views(calls@);
        let mut rest = calls;
        let mut queue: Vec<ExtractedFunctionCall> = Vec::new();
        while rest.len() > 0
            invariant
                all == call_views(rest@) + pending(queue@),
            decreases rest@.len(),
        {
            let ghost left = rest@;
            let ghost before = queue@;
            match rest.pop() {
                Some(call) => {
                    queue.push(call);
                    proof {
                        assert(call_views(left) =~= call_views(rest@).push(call@));
                        assert(call_views(queue@) =~= call_views(before).push(call@));
                        assert(pending(queue@) =~= seq![call@] + pending(before));
                        assert(call_views(left) + pending(before) =~= call_views(rest@)
                            + pending(queue@));
                    }
                },
                None => {},
            }
        }
        assert(call_views(rest@) + pending(queue@) =~= pending(queue@));
        assert(pending(queue@).len() == queue@.len());
        if queue.len() == 0 {
            self.queue = queue;
            ResponseStep::Finish { report_calls: self.state.total_calls > 0 }
        } else {
            self.queue = queue;
            self.state.iteration = self.state.iteration + 1;
            ResponseStep::MakeCalls
        }
    }

    /// Goes on to the next call of the current response.
    pub fn next_call(&mut self, session: &McpToolSession<'_>) -> (step: CallStep)
        requires
            old(self).wf(),
        ensures
            final(self).base_payload == old(self).base_payload,
            final(self).tools_json == old(self).tools_json,
            final(self).limit == old(self).limit,
            final(self).state.iteration == old(self).state.iteration,
            final(self).state.conversation_history == old(self).state.conversation_history,
            final(self).state.mcp_call_items == old(self).state.mcp_call_items,
            final(self).state.original_input == old(self).state.original_input,
            old(self).is_next(step, *session),
            if pending(old(self).queue@).len() == 0 {
                &&& final(self).wf()
                &&& final(self).queue@ == old(self).queue@
                &&& final(self).state.total_calls == old(self).state.total_calls
                &&& match step {
                    CallStep::Resume(Ok(payload)) => old(self).base_payload@ is Object && payload@
                        == resume_payload(
                        old(self).base_payload@,
                        old(self).state.history(),
                        old(self).state.original_input@,
                        old(self).tools_json@,
                        false,
                    ),
                    CallStep::Resume(Err(e)) => !(old(self).base_payload@ is Object) && e@
                        == "payload not an object"@,
                    _ => false,
                }
            } else {
                let call = pending(old(self).queue@)[0];
                &&& pending(final(self).queue@) == pending(old(self).queue@).drop_first()
                &&& final(self).state.total_calls == old(self).state.total_calls + 1
                &&& if old(self).state.total_calls + 1 > old(self).limit {
                    step is LimitReached
                } else {
                    &&& final(self).wf()
                    &&& match json_of_text(call.2) {
                        Ok(arguments) => step matches CallStep::Execute { call: c, input } && c@
                            == call && input.call_id@ == call.0 && input.tool_name@ == call.1
                            && input.arguments@ == arguments,
                        Err(e) => step matches CallStep::Invalid {
                            call: c,
                            output,
                            error,
                            response_format,
                            server_label,
                        } && c@ == call && output@ == "Invalid tool arguments: "@ + e && error@
                            == error_object("Invalid tool arguments: "@ + e) && response_format
                            == session.format_of(call.1) && server_label@ == tool_label(
                            *session,
                            call.1,
                        ),
                    }
                }
            },
    {
        let ghost before = self.queue@;
        assert(pending(before).len() == before.len());
        match self.queue.pop() {
            None => CallStep::Resume(
                build_resume_payload(
                    &self.base_payload,
                    &self.state.conversation_history,
                    &self.state.original_input,
                    &self.tools_json,
                    false,
                ),
            ),
            Some(call) => {
                proof {
                    assert(pending(before)[0] == call@);
                    assert(pending(self.queue@) =~= pending(before).drop_first());
                }
                self.state.total_calls = self.state.total_calls + 1;
                if self.state.total_calls > self.limit {
                    return CallStep::LimitReached;
                }
                match parse(call.arguments.as_str()) {
                    Ok(arguments) => {
                        let input = ToolExecutionInput {
                            call_id: call.call_id.clone(),
                            tool_name: call.name.clone(),
                            arguments,
                        };
                        CallStep::Execute { call, input }
                    },
                    Err(e) => {
                        let mut output: String = "Invalid tool arguments: ".to_owned();
                        output.append(e.as_str());
                        let error = make_error_object(output.as_str());
                        let response_format = session.tool_response_format(call.name.as_str());
                        let server_label = session.resolve_tool_server_label(call.name.as_str());
                        CallStep::Invalid { call, output, error, response_format, server_label }
                    },
                }
            },
        }
    }

    /// Records a call that was made or refused. The model sees its arguments as
    /// it wrote them.
    pub fn record(&mut self, call: &ExtractedFunctionCall, output: &str, item: Json)
        requires
            old(self).wf(),
            old(self).state.items().len() < old(self).state.total_calls,
        ensures
            final(self).wf(),
            final(self).base_payload == old(self).base_payload,
            final(self).tools_json == old(self).tools_json,
            final(self).limit == old(self).limit,
            final(self).queue == old(self).queue,
            final(self).state.iteration == old(self).state.iteration,
            final(self).state.total_calls == old(self).state.total_calls,
            final(self).state.original_input == old(self).state.original_input,
            final(self).state.history() == old(self).state.history().push(
                call_item(call@.0, call@.1, call@.2),
            ).push(call_output_item(call@.0, output@)),
            final(self).state.items() == old(self).state.items().push(item@),
            final(self).state.has_added(old(self).state, call@, output@, item@),
    {
        self.state.record_call(
            call.call_id.as_str(),
            call.name.as_str(),
            call.arguments.as_str(),
            output,
            item,
        );
    }
}

/// Within a loop no more calls are recorded than the request allows, and never
/// more than the gateway allows.
pub proof fn law_calls_stay_within_limit(l: ToolLoop)
    requires
        l.wf(),
    ensures
        l.state.items().len() <= l.limit <= DEFAULT_MAX_ITERATIONS,
        l.state.history().len() == 2 * l.state.items().len(),
{
}

/// Why the model's answer cannot be used.
#[derive(Debug, PartialEq, Eq)]
pub enum UpstreamFailure {
    /// The model could not be asked; the message of the error.
    Request(String),
    /// The model refused the request.
    Status { status: String, body: String },
    /// The answer is no JSON; the message of the error.
    Parse(String),
}

impl UpstreamFailure {
    /// The failure in words.
    pub open spec fn message(self) -> Seq<char> {
        match self {
            UpstreamFailure::Request(e) => "upstream request failed: "@ + e@,
            UpstreamFailure::Status { status, body } => "upstream error "@ + status@ + ": "@
                + body@,
            UpstreamFailure::Parse(e) => "parse response: "@ + e@,
        }
    }

    /// The failure in words.
    pub fn to_string(&self) -> (text: String)
        ensures
            text@ == self.message(),
    {
        match self {
            UpstreamFailure::Request(e) => {
                let mut text: String = "upstream request failed: ".to_owned();
                text.append(e.as_str());
                text
            },
            UpstreamFailure::Status { status, body } => {
                let mut text: String = "upstream error ".to_owned();
                text.append(status.as_str());
                text.append(": ");
                text.append(body.as_str());
                text
            },
            UpstreamFailure::Parse(e) => {
                let mut text: String = "parse response: ".to_owned();
                text.append(e.as_str());
                text
            },
        }
    }
}

// ---------------------------------------------------------------------------
// Events for the client
// ---------------------------------------------------------------------------

/// The payload of an event about an item that is named by its identifier.
pub open spec fn item_event(
    event: Seq<char>,
    sequence: nat,
    output_index: nat,
    item_id: Seq<char>,
) -> JsonView {
    JsonView::Object(
        seq![
            ("type"@, JsonView::Text(event)),
            ("sequence_number"@, JsonView::Number(decimal(sequence))),
            ("output_index"@, JsonView::Number(decimal(output_index))),
            ("item_id"@, JsonView::Text(item_id)),
        ],
    )
}

/// The payload of an event that carries an item.
pub open spec fn item_carrying_event(
    event: Seq<char>,
    sequence: nat,
    output_index: nat,
    item: JsonView,
) -> JsonView {
    JsonView::Object(
        seq![
            ("type"@, JsonView::Text(event)),
            ("sequence_number"@, JsonView::Number(decimal(sequence))),
            ("output_index"@, JsonView::Number(decimal(output_index))),
            ("item"@, item),
        ],
    )
}

/// The payload of an event about an item that is named by its identifier.
pub fn make_item_event(event: &str, sequence: u64, output_index: usize, item_id: &str) -> (json:
    Json)
    ensures
        json@ == item_event(event@, sequence as nat, output_index as nat, item_id@),
{
    let entries = Entries::new().with("type", Json::text(event)).with(
        "sequence_number",
        Json::number(sequence),
    ).with("output_index", Json::number(output_index as u64)).with("item_id", Json::text(item_id));
    assert(entries@ =~= item_event(
        event@,
        sequence as nat,
        output_index as nat,
        item_id@,
    )->Object_0);
    entries.into_object()
}

/// The payload of an event that carries an item.
pub fn make_item_carrying_event(event: &str, sequence: u64, output_index: usize, item: Json) -> (
    json: Json)
    ensures
        json@ == item_carrying_event(event@, sequence as nat, output_index as nat, item@),
{
    let entries = Entries::new().with("type", Json::text(event)).with(
        "sequence_number",
        Json::number(sequence),
    ).with("output_index", Json::number(output_index as u64)).with("item", item);
    assert(entries@ =~= item_carrying_event(
        event@,
        sequence as nat,
        output_index as nat,
        item@,
    )->Object_0);
    entries.into_object()
}

/// The text under `key`; empty where there is none.
pub open spec fn text_or_empty(json: JsonView, key: Seq<char>) -> Seq<char> {
    match json.get_text(key) {
        Some(s) => s,
        None => Seq::empty(),
    }
}

/// The text under `key`; empty where there is none.
pub fn get_text_or_empty<'a>(json: &'a Json, key: &str) -> (r: &'a str)
    ensures
        r@ == text_or_empty(json@, key@),
{
    match json.get_str(key) {
        Some(s) => s,
        None => {
            proof {
                reveal_strlit("");
                assert(""@ =~= Seq::<char>::empty());
            }
            ""
        },
    }
}

/// The events that list the tools of a server.
pub open spec fn list_tools_events(item: JsonView, output_index: nat, sequence: nat) -> Seq<
    Seq<char>,
> {
    let id = text_or_empty(item, "id"@);
    let bare = item.set("tools"@, JsonView::Array(Seq::empty()));
    seq![
        event_text(
            OUTPUT_ITEM_ADDED@,
            item_carrying_event(OUTPUT_ITEM_ADDED@, sequence, output_index, bare),
        ),
        event_text(
            MCP_LIST_TOOLS_IN_PROGRESS@,
            item_event(MCP_LIST_TOOLS_IN_PROGRESS@, sequence + 1, output_index, id),
        ),
        event_text(
            MCP_LIST_TOOLS_COMPLETED@,
            item_event(MCP_LIST_TOOLS_COMPLETED@, sequence + 2, output_index, id),
        ),
        event_text(
            OUTPUT_ITEM_DONE@,
            item_carrying_event(OUTPUT_ITEM_DONE@, sequence + 3, output_index, item),
        ),
    ]
}

/// The events that list the tools of a server, in the order in which they are
/// sent: the item is added without its tools, listed, and done with them.
pub fn mcp_list_tools_events(
    tools_item: &Json,
    output_index: usize,
    sequence_number: &mut u64,
) -> (events: Vec<String>)
    requires
        *old(sequence_number) + 4 <= u64::MAX,
    ensures
        *final(sequence_number) == *old(sequence_number) + 4,
        views(events@) == list_tools_events(
            tools_item@,
            output_index as nat,
            *old(sequence_number) as nat,
        ),
{
    broadcast use group_json_views;

    let n: u64 = *sequence_number;
    let id = get_text_or_empty(tools_item, "id");
    let mut bare = tools_item.clone();
    let none: Vec<Json> = Vec::new();
    assert(json_views(none@) =~= Seq::<JsonView>::empty());
    bare.set("tools", Json::Array(none));
    let mut events: Vec<String> = Vec::new();
    events.push(
        format_event(
            OUTPUT_ITEM_ADDED,
            &make_item_carrying_event(OUTPUT_ITEM_ADDED, n, output_index, bare),
        ),
    );
    events.push(
        format_event(
            MCP_LIST_TOOLS_IN_PROGRESS,
            &make_item_event(MCP_LIST_TOOLS_IN_PROGRESS, n + 1, output_index, id),
        ),
    );
    events.push(
        format_event(
            MCP_LIST_TOOLS_COMPLETED,
            &make_item_event(MCP_LIST_TOOLS_COMPLETED, n + 2, output_index, id),
        ),
    );
    events.push(
        format_event(
            OUTPUT_ITEM_DONE,
            &make_item_carrying_event(OUTPUT_ITEM_DONE, n + 3, output_index, tools_item.clone()),
        ),
    );
    *sequence_number = n + 4;
    assert(views(events@) =~= list_tools_events(tools_item@, output_index as nat, n as nat));
    events
}

/// A function call that is being received.
#[derive(Debug, PartialEq, Eq)]
pub struct FunctionCallInProgress {
    pub call_id: String,
    pub name: String,
    pub arguments_buffer: String,
    /// The place of the call in the output of the model.
    pub output_index: usize,
    /// Its place in the output for the client, where that is another one.
    pub assigned_output_index: Option<usize>,
    pub last_obfuscation: Option<String>,
}

impl View for FunctionCallInProgress {
    type V = CallView;

    open spec fn view(&self) -> CallView {
        (self.call_id@, self.name@, self.arguments_buffer@)
    }
}

impl FunctionCallInProgress {
    /// The place of the call in the output for the client.
    pub open spec fn client_index(self) -> usize {
        match self.assigned_output_index {
            Some(i) => i,
            None => self.output_index,
        }
    }

    /// The place of the call in the output for the client.
    pub fn effective_output_index(&self) -> (i: usize)
        ensures
            i == self.client_index(),
    {
        match self.assigned_output_index {
            Some(i) => i,
            None => self.output_index,
        }
    }
}

/// An identifier with another prefix in place of `fc_`; one without that prefix
/// stays as it is.
pub open spec fn reprefixed(id: Seq<char>, prefix: Seq<char>) -> Seq<char> {
    match after_prefix(id, "fc_"@) {
        Some(rest) => prefix + rest,
        None => id,
    }
}

/// An identifier with another prefix in place of `fc_`.
pub fn replace_fc_prefix(id: &str, prefix: &str) -> (r: String)
    ensures
        r@ == reprefixed(id@, prefix@),
{
    match strip_prefix(id, "fc_") {
        Some(rest) => {
            let mut r: String = prefix.to_owned();
            r.append(rest);
            r
        },
        None => id.to_owned(),
    }
}

/// The event and the identifier prefix for a tool that is at work, where its
/// format has such an event.
pub open spec fn working_event(format: ResponseFormat) -> Option<(Seq<char>, Seq<char>)> {
    match format {
        ResponseFormat::WebSearchCall => Some((WEB_SEARCH_SEARCHING@, "ws_"@)),
        ResponseFormat::CodeInterpreterCall => Some((CODE_INTERPRETER_INTERPRETING@, "ci_"@)),
        ResponseFormat::FileSearchCall => Some((FILE_SEARCH_SEARCHING@, "fs_"@)),
        ResponseFormat::Passthrough => None,
    }
}

/// What the client is told while a tool works, where it is told anything.
pub open spec fn working_text(
    call: FunctionCallInProgress,
    format: ResponseFormat,
    session: McpToolSession<'_>,
    sequence: nat,
) -> Option<Seq<char>> {
    match working_event(format) {
        Some(w) => if session.tool_is_internal(call.name@) {
            None
        } else {
            Some(
                event_text(
                    w.0,
                    item_event(
                        w.0,
                        sequence,
                        call.client_index() as nat,
                        reprefixed(call.call_id@, w.1),
                    ),
                ),
            )
        },
        None => None,
    }
}

/// The event that a tool is at work, where its format has such an event and the
/// client may see the call.
pub fn tool_call_intermediate_event(
    call: &FunctionCallInProgress,
    response_format: ResponseFormat,
    session: &McpToolSession<'_>,
    sequence_number: &mut u64,
) -> (event: Option<String>)
    requires
        *old(sequence_number) < u64::MAX,
    ensures
        opt_view(event) == working_text(
            *call,
            response_format,
            *session,
            *old(sequence_number) as nat,
        ),
        match (if session.tool_is_internal(call.name@) {
            None
        } else {
            working_event(response_format)
        }) {
            Some(w) => event matches Some(text) && text@ == event_text(
                w.0,
                item_event(
                    w.0,
                    *old(sequence_number) as nat,
                    call.client_index() as nat,
                    reprefixed(call.call_id@, w.1),
                ),
            ) && *final(sequence_number) == *old(sequence_number) + 1,
            None => event is None && *final(sequence_number) == *old(sequence_number),
        },
{
    if session.is_internal_tool(call.name.as_str()) {
        return None;
    }
    let (event_type, prefix) = match response_format {
        ResponseFormat::WebSearchCall => (WEB_SEARCH_SEARCHING, "ws_"),
        ResponseFormat::CodeInterpreterCall => (CODE_INTERPRETER_INTERPRETING, "ci_"),
        ResponseFormat::FileSearchCall => (FILE_SEARCH_SEARCHING, "fs_"),
        ResponseFormat::Passthrough => {
            return None;
        },
    };
    let item_id = replace_fc_prefix(call.call_id.as_str(), prefix);
    let payload = make_item_event(
        event_type,
        *sequence_number,
        call.effective_output_index(),
        item_id.as_str(),
    );
    *sequence_number = *sequence_number + 1;
    Some(format_event(event_type, &payload))
}

/// The event for a call that is completed, by the type of its item.
pub open spec fn completed_event(item_type: Seq<char>) -> Seq<char> {
    if item_type == ITEM_WEB_SEARCH_CALL@ {
        WEB_SEARCH_COMPLETED@
    } else if item_type == ITEM_CODE_INTERPRETER_CALL@ {
        CODE_INTERPRETER_COMPLETED@
    } else if item_type == ITEM_FILE_SEARCH_CALL@ {
        FILE_SEARCH_COMPLETED@
    } else {
        MCP_CALL_COMPLETED@
    }
}

/// The events for a call that is completed.
pub open spec fn completion_events(item: JsonView, output_index: nat, sequence: nat) -> Seq<
    Seq<char>,
> {
    let event = completed_event(text_or_empty(item, "type"@));
    seq![
        event_text(event, item_event(event, sequence, output_index, text_or_empty(item, "id"@))),
        event_text(
            OUTPUT_ITEM_DONE@,
            item_carrying_event(OUTPUT_ITEM_DONE@, sequence + 1, output_index, item),
        ),
    ]
}

/// The events for a call that is completed: it is completed, and its item is
/// done.
pub fn tool_call_completion_events(
    call: &FunctionCallInProgress,
    tool_call_item: &Json,
    sequence_number: &mut u64,
) -> (events: Vec<String>)
    requires
        *old(sequence_number) + 2 <= u64::MAX,
    ensures
        *final(sequence_number) == *old(sequence_number) + 2,
        views(events@) == completion_events(
            tool_call_item@,
            call.client_index() as nat,
            *old(sequence_number) as nat,
        ),
{
    let n: u64 = *sequence_number;
    let index: usize = call.effective_output_index();
    let item_id = get_text_or_empty(tool_call_item, "id");
    let item_type = get_text_or_empty(tool_call_item, "type");
    let event = if text_eq(item_type, ITEM_WEB_SEARCH_CALL) {
        WEB_SEARCH_COMPLETED
    } else if text_eq(item_type, ITEM_CODE_INTERPRETER_CALL) {
        CODE_INTERPRETER_COMPLETED
    } else if text_eq(item_type, ITEM_FILE_SEARCH_CALL) {
        FILE_SEARCH_COMPLETED
    } else {
        MCP_CALL_COMPLETED
    };
    let mut events: Vec<String> = Vec::new();
    events.push(format_event(event, &make_item_event(event, n, index, item_id)));
    events.push(
        format_event(
            OUTPUT_ITEM_DONE,
            &make_item_carrying_event(OUTPUT_ITEM_DONE, n + 1, index, tool_call_item.clone()),
        ),
    );
    *sequence_number = n + 2;
    assert(views(events@) =~= completion_events(tool_call_item@, index as nat, n as nat));
    events
}

// ---------------------------------------------------------------------------
// Calls while streaming
// ---------------------------------------------------------------------------

/// What follows on a call that was received in a stream.
pub enum StreamedCallStep {
    /// The call has no name and is left out.
    Skip,
    /// The arguments are no JSON: the call is answered with this error.
    Invalid { error: Json, response_format: ResponseFormat, server_label: String },
    /// The tool is called.
    Execute { input: ToolExecutionInput, response_format: ResponseFormat },
}

/// The arguments of a call that was received: an empty object where none came.
pub open spec fn received_arguments(buffer: Seq<char>) -> Seq<char> {
    if buffer.len() == 0 {
        "{}"@
    } else {
        buffer
    }
}

impl StreamedCallStep {
    /// Whether this is what follows on a call that was received in a stream.
    pub open spec fn is_for(
        self,
        call: FunctionCallInProgress,
        session: McpToolSession<'_>,
    ) -> bool {
        if call.name@.len() == 0 {
            self is Skip
        } else {
            match (json_of_text(received_arguments(call.arguments_buffer@)), self) {
                (Ok(arguments), StreamedCallStep::Execute { input, response_format }) => {
                    &&& input.call_id@ == call.call_id@
                    &&& input.tool_name@ == call.name@
                    &&& input.arguments@ == arguments
                    &&& response_format == session.format_of(call.name@)
                },
                (
                    Err(e),
                    StreamedCallStep::Invalid { error, response_format, server_label },
                ) => {
                    &&& error@ == error_object("Failed to parse tool arguments: "@ + e)
                    &&& response_format == session.format_of(call.name@)
                    &&& server_label@ == tool_label(session, call.name@)
                },
                _ => false,
            }
        }
    }
}

/// What follows on a call that was received in a stream.
pub fn streamed_call_step(call: &FunctionCallInProgress, session: &McpToolSession<'_>) -> (step:
    StreamedCallStep)
    ensures
        step.is_for(*call, *session),
        if call.name@.len() == 0 {
            step is Skip
        } else {
            match json_of_text(received_arguments(call.arguments_buffer@)) {
                Ok(arguments) => step matches StreamedCallStep::Execute {
                    input,
                    response_format,
                } && input.call_id@ == call.call_id@ && input.tool_name@ == call.name@
                    && input.arguments@ == arguments && response_format == session.format_of(
                    call.name@,
                ),
                Err(e) => step matches StreamedCallStep::Invalid {
                    error,
                    response_format,
                    server_label,
                } && error@ == error_object("Failed to parse tool arguments: "@ + e)
                    && response_format == session.format_of(call.name@) && server_label@
                    == tool_label(*session, call.name@),
            }
        },
{
    if call.name.as_str().is_empty() {
        return StreamedCallStep::Skip;
    }
    let arguments = if call.arguments_buffer.as_str().is_empty() {
        "{}"
    } else {
        call.arguments_buffer.as_str()
    };
    let response_format = session.tool_response_format(call.name.as_str());
    match parse(arguments) {
        Ok(arguments) => StreamedCallStep::Execute {
            input: ToolExecutionInput {
                call_id: call.call_id.clone(),
                tool_name: call.name.clone(),
                arguments,
            },
            response_format,
        },
        Err(e) => {
            let mut message: String = "Failed to parse tool arguments: ".to_owned();
            message.append(e.as_str());
            StreamedCallStep::Invalid {
                error: make_error_object(message.as_str()),
                response_format,
                server_label: session.resolve_tool_server_label(call.name.as_str()),
            }
        },
    }
}

/// The events that the client gets for a call that is completed: none for a call
/// of an internal server's tool.
pub open spec fn shown_completion(
    call: FunctionCallInProgress,
    item: JsonView,
    session: McpToolSession<'_>,
    sequence: nat,
) -> Seq<Seq<char>> {
    if session.tool_is_internal(call.name@) {
        Seq::empty()
    } else {
        completion_events(item, call.client_index() as nat, sequence)
    }
}

/// Takes in the result of a call that was received in a stream: it is recorded,
/// and the events for the client are given.
pub fn finish_streamed_call(
    state: &mut ToolLoopState,
    call: &FunctionCallInProgress,
    output: &Json,
    item: Json,
    session: &McpToolSession<'_>,
    sequence_number: &mut u64,
) -> (events: Vec<String>)
    requires
        old(state).wf(),
        *old(sequence_number) + 2 <= u64::MAX,
    ensures
        final(state).wf(),
        final(state).iteration == old(state).iteration,
        final(state).total_calls == old(state).total_calls,
        final(state).original_input == old(state).original_input,
        final(state).history() == old(state).history().push(
            call_item(call.call_id@, call.name@, call.arguments_buffer@),
        ).push(call_output_item(call.call_id@, text_of_json(output@))),
        final(state).items() == old(state).items().push(item@),
        final(state).has_added(*old(state), call@, text_of_json(output@), item@),
        views(events@) == shown_completion(
            *call,
            item@,
            *session,
            *old(sequence_number) as nat,
        ),
        *final(sequence_number) == *old(sequence_number) + events@.len(),
{
    let events: Vec<String> = if session.is_internal_tool(call.name.as_str()) {
        Vec::new()
    } else {
        tool_call_completion_events(call, &item, sequence_number)
    };
    proof {
        if session.tool_is_internal(call.name@) {
            assert(views(events@) =~= Seq::<Seq<char>>::empty());
        } else {
            assert(events@.len() == views(events@).len());
        }
    }
    state.record_call(
        call.call_id.as_str(),
        call.name.as_str(),
        call.arguments_buffer.as_str(),
        print(output).as_str(),
        item,
    );
    events
}

} // verus!

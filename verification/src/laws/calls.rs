//! Laws of the loop of responses and calls.

use vstd::prelude::*;

use crate::execution::error_object;
use crate::inventory::ResponseFormat;
use crate::json::JsonView;
use crate::laws::objects::{law_listed_entry, law_written_entry, says, wire_text};
use crate::laws::words::lemma_words;
use crate::request::InputView;
use crate::session::{exposed_get, exposed_views, BindingView, McpToolSession};
use crate::text::decimal;
use crate::tool_loop::{
    call_count, call_item, call_limit, call_output_item, calls_of, completed_event,
    completion_events, function_tools, incomplete_item, incomplete_response, item_carrying_event,
    item_event, list_tools_events, listed_servers, mcp_call_item, only_calls, pending,
    public_items, received_arguments, reprefixed, response_calls, resume_payload, shown_completion,
    text_or_empty, tool_label, user_item, with_function_tools, with_mcp_metadata,
    without_tool_lists, working_event, CallView, ExtractedFunctionCall, FunctionCallInProgress,
    ToolLoop, ToolLoopState, UpstreamFailure,
};

verus! {

broadcast use {law_written_entry, vstd::string::group_string_axioms};

/// Of the tools of a payload those of type `function` are kept, in their order, and
/// no others.
pub proof fn law_function_tools_are_taken_one_by_one(
    a: Seq<JsonView>,
    b: Seq<JsonView>,
    x: JsonView,
)
    ensures
        function_tools(a + b) == function_tools(a) + function_tools(b),
        function_tools(Seq::<JsonView>::empty()) == Seq::<JsonView>::empty(),
        function_tools(seq![x]) == (if x.get_text("type"@) == Some("function"@) {
            seq![x]
        } else {
            Seq::empty()
        }),
    decreases b.len(),
{
    reveal_with_fuel(function_tools, 2);
    assert(seq![x].drop_last() =~= Seq::<JsonView>::empty());
    assert(function_tools(seq![x]) =~= (if x.get_text("type"@) == Some("function"@) {
            seq![x]
        } else {
            Seq::empty()
        }));
    if b.len() == 0 {
        assert(a + b =~= a);
        assert(function_tools(a) + function_tools(b) =~= function_tools(a));
    } else {
        law_function_tools_are_taken_one_by_one(a, b.drop_last(), x);
        assert((a + b).drop_last() =~= a + b.drop_last());
        assert(function_tools(a + b) =~= function_tools(a) + function_tools(b));
    }
}

/// The calls of a response are its items of type `function_call` or
/// `function_tool_call` that have an identifier, a name and arguments, in their
/// order.
pub proof fn law_calls_are_taken_one_by_one(
    a: Seq<JsonView>,
    b: Seq<JsonView>,
    x: JsonView,
)
    ensures
        calls_of(a + b) == calls_of(a) + calls_of(b),
        calls_of(Seq::<JsonView>::empty()) == Seq::<CallView>::empty(),
        calls_of(seq![x]) == (match (
            if x.get_text("call_id"@) is Some {
                x.get_text("call_id"@)
            } else {
                x.get_text("id"@)
            },
            x.get_text("name"@),
            x.get_text("arguments"@),
        ) {
            (Some(id), Some(name), Some(arguments)) => if x.get_text("type"@) == Some(
                "function_call"@,
            ) || x.get_text("type"@) == Some("function_tool_call"@) {
                seq![(id, name, arguments)]
            } else {
                Seq::empty()
            },
            _ => Seq::empty(),
        }),
    decreases b.len(),
{
    reveal_with_fuel(calls_of, 2);
    assert(seq![x].drop_last() =~= Seq::<JsonView>::empty());
    assert(calls_of(seq![x]) =~= (match (
            if x.get_text("call_id"@) is Some {
                x.get_text("call_id"@)
            } else {
                x.get_text("id"@)
            },
            x.get_text("name"@),
            x.get_text("arguments"@),
        ) {
            (Some(id), Some(name), Some(arguments)) => if x.get_text("type"@) == Some(
                "function_call"@,
            ) || x.get_text("type"@) == Some("function_tool_call"@) {
                seq![(id, name, arguments)]
            } else {
                Seq::empty()
            },
            _ => Seq::empty(),
        }));
    if b.len() == 0 {
        assert(a + b =~= a);
        assert(calls_of(a) + calls_of(b) =~= calls_of(a));
    } else {
        law_calls_are_taken_one_by_one(a, b.drop_last(), x);
        assert((a + b).drop_last() =~= a + b.drop_last());
        assert(calls_of(a + b) =~= calls_of(a) + calls_of(b));
    }
}

/// Of the items of calls the client sees those without the label of an internal
/// server, in their order.
pub proof fn law_reported_items_are_taken_one_by_one(
    a: Seq<JsonView>,
    b: Seq<JsonView>,
    x: JsonView,
    session: McpToolSession<'_>,
)
    ensures
        public_items(a + b, session) == public_items(a, session) + public_items(b, session),
        public_items(Seq::<JsonView>::empty(), session) == Seq::<JsonView>::empty(),
        public_items(seq![x], session) == (match x.get_text("server_label"@) {
            Some(label) => if session.label_is_internal(label) {
                Seq::empty()
            } else {
                seq![x]
            },
            None => seq![x],
        }),
    decreases b.len(),
{
    reveal_with_fuel(public_items, 2);
    assert(seq![x].drop_last() =~= Seq::<JsonView>::empty());
    assert(public_items(seq![x], session) =~= (match x.get_text("server_label"@) {
            Some(label) => if session.label_is_internal(label) {
                Seq::empty()
            } else {
                seq![x]
            },
            None => seq![x],
        }));
    if b.len() == 0 {
        assert(a + b =~= a);
        assert(public_items(a, session) + public_items(b, session) =~= public_items(a, session));
    } else {
        law_reported_items_are_taken_one_by_one(a, b.drop_last(), x, session);
        assert((a + b).drop_last() =~= a + b.drop_last());
        assert(public_items(a + b, session) =~= public_items(a, session) + public_items(b, session));
    }
}

/// The tools of a server are listed where its label is not that of an internal
/// server, in the order of the servers.
pub proof fn law_listed_servers_are_taken_one_by_one(
    a: Seq<BindingView>,
    b: Seq<BindingView>,
    x: BindingView,
    session: McpToolSession<'_>,
)
    ensures
        listed_servers(a + b, session) == listed_servers(a, session) + listed_servers(b, session),
        listed_servers(Seq::<BindingView>::empty(), session) == Seq::<BindingView>::empty(),
        listed_servers(seq![x], session) == (if session.label_is_internal(x.label) {
            Seq::empty()
        } else {
            seq![x]
        }),
    decreases b.len(),
{
    reveal_with_fuel(listed_servers, 2);
    assert(seq![x].drop_last() =~= Seq::<BindingView>::empty());
    assert(listed_servers(seq![x], session) =~= (if session.label_is_internal(x.label) {
            Seq::empty()
        } else {
            seq![x]
        }));
    if b.len() == 0 {
        assert(a + b =~= a);
        assert(listed_servers(a, session) + listed_servers(b, session) =~= listed_servers(a, session));
    } else {
        law_listed_servers_are_taken_one_by_one(a, b.drop_last(), x, session);
        assert((a + b).drop_last() =~= a + b.drop_last());
        assert(listed_servers(a + b, session) =~= listed_servers(a, session) + listed_servers(b, session));
    }
}

/// Items of type `mcp_list_tools` are taken out of the output, and no others.
pub proof fn law_lists_are_taken_out_one_by_one(
    a: Seq<JsonView>,
    b: Seq<JsonView>,
    x: JsonView,
)
    ensures
        without_tool_lists(a + b) == without_tool_lists(a) + without_tool_lists(b),
        without_tool_lists(Seq::<JsonView>::empty()) == Seq::<JsonView>::empty(),
        without_tool_lists(seq![x]) == (if x.get_text("type"@) == Some("mcp_list_tools"@) {
            Seq::empty()
        } else {
            seq![x]
        }),
    decreases b.len(),
{
    reveal_with_fuel(without_tool_lists, 2);
    assert(seq![x].drop_last() =~= Seq::<JsonView>::empty());
    assert(without_tool_lists(seq![x]) =~= (if x.get_text("type"@) == Some("mcp_list_tools"@) {
            Seq::empty()
        } else {
            seq![x]
        }));
    if b.len() == 0 {
        assert(a + b =~= a);
        assert(without_tool_lists(a) + without_tool_lists(b) =~= without_tool_lists(a));
    } else {
        law_lists_are_taken_out_one_by_one(a, b.drop_last(), x);
        assert((a + b).drop_last() =~= a + b.drop_last());
        assert(without_tool_lists(a + b) =~= without_tool_lists(a) + without_tool_lists(b));
    }
}

/// The open calls of a response are its items of type `function_call` or
/// `function_tool_call`, in their order.
pub proof fn law_open_calls_are_taken_one_by_one(
    a: Seq<JsonView>,
    b: Seq<JsonView>,
    x: JsonView,
)
    ensures
        only_calls(a + b) == only_calls(a) + only_calls(b),
        only_calls(Seq::<JsonView>::empty()) == Seq::<JsonView>::empty(),
        only_calls(seq![x]) == (if x.get_text("type"@) == Some("function_call"@) || x.get_text("type"@) == Some(
            "function_tool_call"@,
        ) {
            seq![x]
        } else {
            Seq::empty()
        }),
    decreases b.len(),
{
    reveal_with_fuel(only_calls, 2);
    assert(seq![x].drop_last() =~= Seq::<JsonView>::empty());
    assert(only_calls(seq![x]) =~= (if x.get_text("type"@) == Some("function_call"@) || x.get_text("type"@) == Some(
            "function_tool_call"@,
        ) {
            seq![x]
        } else {
            Seq::empty()
        }));
    if b.len() == 0 {
        assert(a + b =~= a);
        assert(only_calls(a) + only_calls(b) =~= only_calls(a));
    } else {
        law_open_calls_are_taken_one_by_one(a, b.drop_last(), x);
        assert((a + b).drop_last() =~= a + b.drop_last());
        assert(only_calls(a + b) =~= only_calls(a) + only_calls(b));
    }
}

/// A call and its result are recorded as the model wrote and gets them.
pub proof fn law_recorded_call(
    call_id: Seq<char>,
    name: Seq<char>,
    arguments: Seq<char>,
    output: Seq<char>,
)
    ensures
        ({
            let call = call_item(call_id, name, arguments);
            let result = call_output_item(call_id, output);
            &&& call.get_text("type"@) == Some("function_call"@)
            &&& call.get_text("call_id"@) == Some(call_id)
            &&& call.get_text("name"@) == Some(name)
            &&& call.get_text("arguments"@) == Some(arguments)
            &&& result.get_text("type"@) == Some("function_call_output"@)
            &&& result.get_text("call_id"@) == Some(call_id)
            &&& result.get_text("output"@) == Some(output)
        }),
{
    lemma_words();
    let call = call_item(call_id, name, arguments)->Object_0;
    law_listed_entry(call, 0);
    law_listed_entry(call, 1);
    law_listed_entry(call, 2);
    law_listed_entry(call, 3);
    let result = call_output_item(call_id, output)->Object_0;
    law_listed_entry(result, 0);
    law_listed_entry(result, 1);
    law_listed_entry(result, 2);
}

/// The model is offered the function tools of the request and behind them those
/// of the session, and chooses among them freely. Other kinds of tools are not
/// sent to it, and every other entry of the payload stays.
pub proof fn law_model_is_offered_the_tools(
    payload: JsonView,
    session_tools: Seq<JsonView>,
    key: Seq<char>,
)
    requires
        payload is Object,
    ensures
        ({
            let own = match payload.get_items("tools"@) {
                Some(tools) => function_tools(tools),
                None => Seq::empty(),
            };
            let done = with_function_tools(payload, session_tools);
            &&& done is Object
            &&& own.len() + session_tools.len() > 0 ==> {
                &&& done.get_items("tools"@) matches Some(list)
                &&& list.len() == own.len() + session_tools.len()
                &&& list.take(own.len() as int) == own
                &&& list.skip(own.len() as int) == session_tools
                &&& done.get_text("tool_choice"@) == Some("auto"@)
            }
            &&& own.len() + session_tools.len() == 0 ==> {
                &&& payload.get_items("tools"@) is Some ==> (done.get_items("tools"@) matches Some(
                    list,
                ) && list.len() == 0)
                &&& payload.get_items("tools"@) is None ==> done.get("tools"@) == payload.get(
                    "tools"@,
                )
                &&& done.get("tool_choice"@) == payload.get("tool_choice"@)
            }
            &&& key != "tools"@ && key != "tool_choice"@ ==> done.get(key) == payload.get(key)
        }),
{
    lemma_words();
    let own = match payload.get_items("tools"@) {
        Some(tools) => function_tools(tools),
        None => Seq::empty(),
    };
    let all = own + session_tools;
    assert(all.take(own.len() as int) =~= own);
    assert(all.skip(own.len() as int) =~= session_tools);
}

/// A text of the user is sent to the model as one message of the user that holds
/// it.
pub proof fn law_text_becomes_a_message(text: Seq<char>)
    ensures
        user_item(text).get_text("type"@) == Some("message"@),
        user_item(text).get_text("role"@) == Some("user"@),
        user_item(text).get_items("content"@) matches Some(parts) && parts.len() == 1
            && parts[0].get_text("type"@) == Some("input_text"@) && parts[0].get_text("text"@)
            == Some(text),
{
    lemma_words();
    let entries = user_item(text)->Object_0;
    law_listed_entry(entries, 0);
    law_listed_entry(entries, 1);
    law_listed_entry(entries, 2);
    let part = (entries[2].1->Array_0)[0]->Object_0;
    law_listed_entry(part, 0);
    law_listed_entry(part, 1);
}

/// The conversation goes on with all of it: the input of the request, and behind
/// it every call and result so far, in their order. The tools are sent again, the
/// payload says whether a stream is asked for and that nothing is stored, and
/// every other entry is that of the first payload.
pub proof fn law_resumed_conversation_is_whole(
    base: JsonView,
    history: Seq<JsonView>,
    input: InputView,
    tools: JsonView,
    is_streaming: bool,
    i: int,
    key: Seq<char>,
)
    requires
        base is Object,
    ensures
        ({
            let payload = resume_payload(base, history, input, tools, is_streaming);
            &&& payload.get_items("input"@) matches Some(list) && match input {
                InputView::Items(items) => {
                    &&& list.len() == items.len() + history.len()
                    &&& 0 <= i < items.len() ==> list[i] == items[i]
                    &&& 0 <= i < history.len() ==> list[items.len() + i] == history[i]
                },
                InputView::Text(text) => {
                    &&& list.len() == 1 + history.len()
                    &&& list[0].get_text("type"@) == Some("message"@)
                    &&& list[0].get_text("role"@) == Some("user"@)
                    &&& list[0].get_items("content"@) matches Some(parts) && parts.len() == 1
                        && parts[0].get_text("text"@) == Some(text)
                    &&& 0 <= i < history.len() ==> list[1 + i] == history[i]
                },
            }
            &&& payload.get("stream"@) == Some(JsonView::Bool(is_streaming))
            &&& payload.get("store"@) == Some(JsonView::Bool(false))
            &&& payload.get("tools"@) == match tools {
                JsonView::Array(list) => if list.len() > 0 {
                    Some(tools)
                } else {
                    base.get("tools"@)
                },
                _ => base.get("tools"@),
            }
            &&& key != "input"@ && key != "tools"@ && key != "stream"@ && key != "store"@
                ==> payload.get(key) == base.get(key)
        }),
{
    lemma_words();
    if let InputView::Text(text) = input {
        law_text_becomes_a_message(text);
    }
}

/// The tools that the conversation goes on with are those of the first payload.
pub proof fn law_tools_of_the_payload_are_kept(payload: JsonView)
    ensures
        payload.get("tools"@) matches Some(tools) ==> ToolLoop::payload_tools(payload) == tools,
        payload.get("tools"@) is None ==> ToolLoop::payload_tools(payload) == JsonView::Array(
            Seq::<JsonView>::empty(),
        ),
{
}

/// The calls of a response are those of its output; a response without a list of
/// output items has none.
pub proof fn law_calls_stand_in_the_output(response: JsonView)
    ensures
        response.get_items("output"@) matches Some(items) ==> {
            &&& response_calls(response) == calls_of(items)
            &&& call_count(response) == only_calls(items).len()
        },
        response.get_items("output"@) is None ==> {
            &&& response_calls(response).len() == 0
            &&& call_count(response) == 0
        },
{
}

/// The calls that wait are made in the order in which they came: the last of the
/// stack comes first, and then those below it.
pub proof fn law_waiting_calls_keep_their_order(queue: Seq<ExtractedFunctionCall>, i: int)
    requires
        0 <= i < queue.len(),
    ensures
        pending(queue).len() == queue.len(),
        pending(queue)[i] == queue[queue.len() - 1 - i]@,
{
}

/// As many calls are made as the request allows, and never more than ten.
pub proof fn law_call_limit(max_tool_calls: Option<u32>)
    ensures
        call_limit(max_tool_calls) <= 10,
        max_tool_calls matches Some(n) ==> call_limit(max_tool_calls) == (if n <= 10 {
            n as nat
        } else {
            10
        }),
        max_tool_calls is None ==> call_limit(max_tool_calls) == 10,
{
}

/// In the final output the lists of tools come first, then the calls, then what
/// the model wrote, without lists of its own. Every other entry stays.
pub proof fn law_final_output(
    response: JsonView,
    lists: Seq<JsonView>,
    calls: Seq<JsonView>,
    key: Seq<char>,
)
    requires
        response is Object,
    ensures
        ({
            let done = with_mcp_metadata(response, lists, calls);
            &&& done is Object
            &&& done.get_items("output"@) matches Some(output) && {
                &&& output.len() >= lists.len() + calls.len()
                &&& output.take(lists.len() as int) == lists
                &&& output.subrange(lists.len() as int, (lists.len() + calls.len()) as int) == calls
                &&& response.get_items("output"@) matches Some(items) ==> output.skip(
                    (lists.len() + calls.len()) as int,
                ) == without_tool_lists(items)
                &&& response.get_items("output"@) is None ==> output.len() == lists.len()
                    + calls.len()
            }
            &&& key != "output"@ ==> done.get(key) == response.get(key)
        }),
{
    lemma_words();
    let kept = match response.get_items("output"@) {
        Some(items) => without_tool_lists(items),
        None => Seq::empty(),
    };
    let all = lists + calls + kept;
    assert(all.take(lists.len() as int) =~= lists);
    assert(all.subrange(lists.len() as int, (lists.len() + calls.len()) as int) =~= calls);
    assert(all.skip((lists.len() + calls.len()) as int) =~= kept);
}

/// A call is shown to the client with its name, arguments, output, label and
/// outcome.
pub proof fn law_shown_call(
    id: Seq<char>,
    name: Seq<char>,
    arguments: Seq<char>,
    output: Seq<char>,
    label: Seq<char>,
    success: bool,
    error: Option<Seq<char>>,
)
    ensures
        ({
            let item = mcp_call_item(id, name, arguments, output, label, success, error);
            &&& item.get_text("id"@) == Some(id)
            &&& item.get_text("type"@) == Some("mcp_call"@)
            &&& success ==> item.get_text("status"@) == Some("completed"@)
            &&& !success ==> item.get_text("status"@) == Some("failed"@)
            &&& item.get("approval_request_id"@) == Some(JsonView::Null)
            &&& item.get_text("arguments"@) == Some(arguments)
            &&& item.get("error"@) == (match error {
                Some(e) => Some(JsonView::Text(e)),
                None => Some(JsonView::Null),
            })
            &&& item.get_text("name"@) == Some(name)
            &&& item.get_text("output"@) == Some(output)
            &&& item.get_text("server_label"@) == Some(label)
        }),
{
    lemma_words();
    let entries = mcp_call_item(id, name, arguments, output, label, success, error)->Object_0;
    law_listed_entry(entries, 0);
    law_listed_entry(entries, 1);
    law_listed_entry(entries, 2);
    law_listed_entry(entries, 3);
    law_listed_entry(entries, 4);
    law_listed_entry(entries, 5);
    law_listed_entry(entries, 6);
    law_listed_entry(entries, 7);
    law_listed_entry(entries, 8);
}

/// The label of a tool is that of its server, or that of the first server where
/// the tool is not known.
pub proof fn law_tool_label(session: McpToolSession<'_>, name: Seq<char>)
    ensures
        exposed_get(exposed_views(session.exposed@), name) matches Some(tool) ==> tool_label(
            session,
            name,
        ) == tool.server_label,
        exposed_get(exposed_views(session.exposed@), name) is None
            && session.all_mcp_servers@.len() > 0 ==> tool_label(session, name)
            == session.all_mcp_servers@[0].label@,
        exposed_get(exposed_views(session.exposed@), name) is None
            && session.all_mcp_servers@.len() == 0 ==> tool_label(session, name) == "mcp"@,
{
}

/// A call that was not made is shown as failed, with its name and arguments and
/// why it was not made.
pub proof fn law_open_call_is_shown_as_failed(
    item: JsonView,
    id: Seq<char>,
    session: McpToolSession<'_>,
)
    ensures
        ({
            let shown = incomplete_item(item, id, session);
            &&& shown.get_text("id"@) == Some(id)
            &&& shown.get_text("type"@) == Some("mcp_call"@)
            &&& shown.get_text("status"@) == Some("failed"@)
            &&& shown.get_text("error"@) == Some("Not executed - response stopped due to limit"@)
            &&& shown.get_text("name"@) == Some(
                match item.get_text("name"@) {
                    Some(name) => name,
                    None => Seq::empty(),
                },
            )
            &&& shown.get_text("arguments"@) == Some(
                match item.get_text("arguments"@) {
                    Some(arguments) => arguments,
                    None => "{}"@,
                },
            )
            &&& shown.get_text("output"@) == Some(Seq::<char>::empty())
            &&& item.get_text("name"@) matches Some(name) ==> shown.get_text("server_label"@)
                == Some(tool_label(session, name))
        }),
{
    let name = match item.get_text("name"@) {
        Some(n) => n,
        None => Seq::empty(),
    };
    let arguments = match item.get_text("arguments"@) {
        Some(a) => a,
        None => "{}"@,
    };
    law_shown_call(
        id,
        name,
        arguments,
        Seq::empty(),
        tool_label(session, name),
        false,
        Some("Not executed - response stopped due to limit"@),
    );
}

/// A response that is cut short says so and why, and its output still ends with
/// all that the model wrote. Where calls were made or are open, the lists of
/// tools, the calls that were made and those that were not stand before it.
pub proof fn law_cut_response(
    response: JsonView,
    state: ToolLoopState,
    reason: Seq<char>,
    session: McpToolSession<'_>,
    lists: Seq<JsonView>,
    ids: Seq<Seq<char>>,
    key: Seq<char>,
)
    requires
        response is Object,
    ensures
        ({
            let done = incomplete_response(response, state, reason, session, lists, ids);
            &&& done.get_text("status"@) == Some("completed"@)
            &&& done.get("incomplete_details"@) matches Some(details) && details.get_text(
                "reason"@,
            ) == Some(reason)
            &&& response.get_items("output"@) matches Some(items) ==> {
                let open_calls = only_calls(items);
                let shown = Seq::new(
                    open_calls.len(),
                    |i: int| incomplete_item(open_calls[i], ids[i], session),
                );
                if state.total_calls > 0 || open_calls.len() > 0 {
                    done.get_items("output"@) == Some(
                        lists + public_items(state.items(), session) + public_items(shown, session)
                            + items,
                    )
                } else {
                    done.get_items("output"@) == Some(items)
                }
            }
            &&& response.get_items("output"@) is None ==> done.get("output"@) == response.get(
                "output"@,
            )
            &&& key != "status"@ && key != "incomplete_details"@ && key != "output"@ && key
                != "metadata"@ ==> done.get(key) == response.get(key)
            &&& match response.get("metadata"@) {
                None => done.get("metadata"@) is None,
                Some(metadata) => match metadata.get("mcp"@) {
                    Some(mcp) => if mcp is Object {
                        &&& done.get("metadata"@) matches Some(after)
                        &&& after.get("mcp"@) matches Some(noted)
                        &&& noted.get_text("truncation_warning"@) == Some(
                            "Loop terminated at "@ + decimal(state.iteration as nat)
                                + " iterations, "@ + decimal(state.total_calls as nat)
                                + " total calls (reason: "@ + reason + ")"@,
                        )
                        &&& key != "truncation_warning"@ ==> noted.get(key) == mcp.get(key)
                        &&& key != "mcp"@ ==> after.get(key) == metadata.get(key)
                    } else {
                        done.get("metadata"@) == Some(metadata)
                    },
                    None => done.get("metadata"@) == Some(metadata),
                },
            }
        }),
{
    lemma_words();
    let details = seq![("reason"@, JsonView::Text(reason))];
    law_listed_entry(details, 0);
}

/// What the caller is told of a failure names what failed and why.
pub proof fn law_failure_of_the_model_is_told(failure: UpstreamFailure)
    ensures
        failure matches UpstreamFailure::Request(e) ==> failure.message()
            == "upstream request failed: "@ + e@,
        failure matches UpstreamFailure::Status { status, body } ==> failure.message()
            == "upstream error "@ + status@ + ": "@ + body@,
        failure matches UpstreamFailure::Parse(e) ==> failure.message() == "parse response: "@ + e@,
{
}

/// An event about an item says its type, number and place, and names the item.
pub proof fn law_item_event(event: Seq<char>, sequence: nat, index: nat, id: Seq<char>)
    ensures
        says(item_event(event, sequence, index, id), event, sequence, index),
        item_event(event, sequence, index, id).get_text("item_id"@) == Some(id),
{
    lemma_words();
    let entries = item_event(event, sequence, index, id)->Object_0;
    law_listed_entry(entries, 0);
    law_listed_entry(entries, 1);
    law_listed_entry(entries, 2);
    law_listed_entry(entries, 3);
}

/// An event that carries an item says its type, number and place, and holds the
/// item.
pub proof fn law_item_carrying_event(event: Seq<char>, sequence: nat, index: nat, item: JsonView)
    ensures
        says(item_carrying_event(event, sequence, index, item), event, sequence, index),
        item_carrying_event(event, sequence, index, item).get("item"@) == Some(item),
{
    lemma_words();
    let entries = item_carrying_event(event, sequence, index, item)->Object_0;
    law_listed_entry(entries, 0);
    law_listed_entry(entries, 1);
    law_listed_entry(entries, 2);
    law_listed_entry(entries, 3);
}

/// The tools of a server are listed by four events in a row: the item is added
/// without its tools, the listing begins and ends, and the whole item is done.
/// Gives the data of the four.
pub proof fn law_tools_are_listed_by_four_events(item: JsonView, index: nat, sequence: nat) -> (data:
    Seq<JsonView>)
    requires
        item is Object,
    ensures
        ({
            let texts = list_tools_events(item, index, sequence);
            let id = match item.get_text("id"@) {
                Some(id) => id,
                None => Seq::empty(),
            };
            &&& texts.len() == 4
            &&& data.len() == 4
            &&& texts[0] == wire_text("response.output_item.added"@, data[0])
            &&& texts[1] == wire_text("response.mcp_list_tools.in_progress"@, data[1])
            &&& texts[2] == wire_text("response.mcp_list_tools.completed"@, data[2])
            &&& texts[3] == wire_text("response.output_item.done"@, data[3])
            &&& says(data[0], "response.output_item.added"@, sequence, index)
            &&& says(data[1], "response.mcp_list_tools.in_progress"@, sequence + 1, index)
            &&& says(data[2], "response.mcp_list_tools.completed"@, sequence + 2, index)
            &&& says(data[3], "response.output_item.done"@, sequence + 3, index)
            &&& data[0].get("item"@) matches Some(bare) && bare.get_items("tools"@) == Some(
                Seq::<JsonView>::empty(),
            ) && forall|key: Seq<char>|
                key != "tools"@ ==> #[trigger] bare.get(key) == item.get(key)
            &&& data[1].get_text("item_id"@) == Some(id)
            &&& data[2].get_text("item_id"@) == Some(id)
            &&& data[3].get("item"@) == Some(item)
        }),
{
    let id = match item.get_text("id"@) {
        Some(id) => id,
        None => Seq::empty(),
    };
    let bare = item.set("tools"@, JsonView::Array(Seq::empty()));
    law_item_carrying_event("response.output_item.added"@, sequence, index, bare);
    law_item_event("response.mcp_list_tools.in_progress"@, sequence + 1, index, id);
    law_item_event("response.mcp_list_tools.completed"@, sequence + 2, index, id);
    law_item_carrying_event("response.output_item.done"@, sequence + 3, index, item);
    seq![
        item_carrying_event("response.output_item.added"@, sequence, index, bare),
        item_event("response.mcp_list_tools.in_progress"@, sequence + 1, index, id),
        item_event("response.mcp_list_tools.completed"@, sequence + 2, index, id),
        item_carrying_event("response.output_item.done"@, sequence + 3, index, item),
    ]
}

/// An identifier of a call that starts with `fc_` starts with the new prefix
/// instead; any other stays as it is.
pub proof fn law_prefix_is_replaced(rest: Seq<char>, prefix: Seq<char>, id: Seq<char>)
    ensures
        reprefixed("fc_"@ + rest, prefix) == prefix + rest,
        !(id.len() >= 3 && id[0] == 'f' && id[1] == 'c' && id[2] == '_') ==> reprefixed(id, prefix)
            == id,
{
    reveal_strlit("fc_");
    let whole = "fc_"@ + rest;
    assert(whole.subrange(0, 3) =~= "fc_"@);
    assert(whole.skip(3) =~= rest);
    if id.len() >= 3 {
        assert(id.subrange(0, 3)[0] == id[0]);
        assert(id.subrange(0, 3)[1] == id[1]);
        assert(id.subrange(0, 3)[2] == id[2]);
    }
}

/// While a tool works, the client is told so by the event of its format: a web
/// search searches, code is interpreted, files are searched. Of other calls
/// nothing is told.
pub proof fn law_working_tools_are_announced(format: ResponseFormat)
    ensures
        format is WebSearchCall ==> working_event(format) == Some(
            ("response.web_search_call.searching"@, "ws_"@),
        ),
        format is CodeInterpreterCall ==> working_event(format) == Some(
            ("response.code_interpreter_call.interpreting"@, "ci_"@),
        ),
        format is FileSearchCall ==> working_event(format) == Some(
            ("response.file_search_call.searching"@, "fs_"@),
        ),
        format is Passthrough ==> working_event(format) is None,
{
}

/// The end of a call is told by two events: that of the type of its item, and
/// that the item is done, with the item in it. Gives the data of the two.
pub proof fn law_end_of_a_call_is_told(item: JsonView, index: nat, sequence: nat) -> (data: Seq<
    JsonView,
>)
    ensures
        ({
            let texts = completion_events(item, index, sequence);
            let kind = item.get_text("type"@);
            let event = if kind == Some("web_search_call"@) {
                "response.web_search_call.completed"@
            } else if kind == Some("code_interpreter_call"@) {
                "response.code_interpreter_call.completed"@
            } else if kind == Some("file_search_call"@) {
                "response.file_search_call.completed"@
            } else {
                "response.mcp_call.completed"@
            };
            &&& texts.len() == 2
            &&& data.len() == 2
            &&& texts[0] == wire_text(event, data[0])
            &&& texts[1] == wire_text("response.output_item.done"@, data[1])
            &&& says(data[0], event, sequence, index)
            &&& says(data[1], "response.output_item.done"@, sequence + 1, index)
            &&& data[0].get_text("item_id"@) == Some(
                match item.get_text("id"@) {
                    Some(id) => id,
                    None => Seq::empty(),
                },
            )
            &&& data[1].get("item"@) == Some(item)
        }),
{
    lemma_words();
    let event = completed_event(text_or_empty(item, "type"@));
    law_item_event(event, sequence, index, text_or_empty(item, "id"@));
    law_item_carrying_event("response.output_item.done"@, sequence + 1, index, item);
    seq![
        item_event(event, sequence, index, text_or_empty(item, "id"@)),
        item_carrying_event("response.output_item.done"@, sequence + 1, index, item),
    ]
}

/// The end of a call of an internal server's tool is not told; that of any other
/// is, at the place that the client knows.
pub proof fn law_end_of_an_internal_call_is_not_told(
    call: FunctionCallInProgress,
    item: JsonView,
    session: McpToolSession<'_>,
    sequence: nat,
)
    ensures
        session.tool_is_internal(call.name@) ==> shown_completion(
            call,
            item,
            session,
            sequence,
        ).len() == 0,
        !session.tool_is_internal(call.name@) ==> shown_completion(call, item, session, sequence)
            == completion_events(
            item,
            match call.assigned_output_index {
                Some(i) => i as nat,
                None => call.output_index as nat,
            },
            sequence,
        ),
{
}

/// The place of a call for the client is the assigned one, where there is one.
pub proof fn law_place_of_a_call(call: FunctionCallInProgress)
    ensures
        call.assigned_output_index matches Some(i) ==> call.client_index() == i,
        call.assigned_output_index is None ==> call.client_index() == call.output_index,
{
}

/// Arguments that never came are an empty object; others stay as they came.
pub proof fn law_missing_arguments_are_an_empty_object(buffer: Seq<char>)
    ensures
        buffer.len() > 0 ==> received_arguments(buffer) == buffer,
        buffer.len() == 0 ==> received_arguments(buffer) == "{}"@,
{
}

/// A refused call is answered with an object whose `error` says why.
pub proof fn law_error_object(message: Seq<char>)
    ensures
        error_object(message).get_text("error"@) == Some(message),
{
    law_listed_entry(error_object(message)->Object_0, 0);
}

} // verus!

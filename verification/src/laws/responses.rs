//! Laws of completing and restoring responses.

use vstd::prelude::*;

use crate::json::{entry_views, lemma_set_keeps_unique, opt_json, unique_keys, JsonView};
use crate::laws::objects::{
    law_appended_entry, law_listed_entry, law_removed_entry, law_written_entry,
};
use crate::laws::words::lemma_words;
use crate::patch::{
    is_blank, is_internal_output_item, is_internal_tool_value, law_without_those, mcp_tool_value,
    patched, restored, rewritten_block, rewritten_event, text_array, tool_value, tool_values,
    wants_store, with_text, with_value, without_internal_output, without_internal_tools,
    without_those,
};
use crate::request::{McpTool, ResponseTool, ResponsesRequest};
use crate::session::McpToolSession;
use crate::sse::{block_data, with_payload};
use crate::text::{joined, lines_of, opt_view, trimmed, views};
use crate::wire::{json_of_text, text_of_json};

verus! {

broadcast use {law_written_entry, vstd::string::group_string_axioms};

/// Each item is kept or dropped by itself, and those that are kept keep their
/// order.
pub proof fn law_items_are_dropped_one_by_one(
    a: Seq<JsonView>,
    b: Seq<JsonView>,
    x: JsonView,
    drop: spec_fn(JsonView) -> bool,
)
    ensures
        without_those(a + b, drop) == without_those(a, drop) + without_those(b, drop),
        without_those(Seq::<JsonView>::empty(), drop) == Seq::<JsonView>::empty(),
        without_those(seq![x], drop) == (if drop(x) {
            Seq::empty()
        } else {
            seq![x]
        }),
    decreases b.len(),
{
    reveal_with_fuel(without_those, 2);
    assert(seq![x].drop_last() =~= Seq::<JsonView>::empty());
    assert(without_those(seq![x], drop) =~= (if drop(x) {
            Seq::empty()
        } else {
            seq![x]
        }));
    if b.len() == 0 {
        assert(a + b =~= a);
        assert(without_those(a, drop) + without_those(b, drop) =~= without_those(a, drop));
    } else {
        law_items_are_dropped_one_by_one(a, b.drop_last(), x, drop);
        assert((a + b).drop_last() =~= a + b.drop_last());
        assert(without_those(a + b, drop) =~= without_those(a, drop) + without_those(b, drop));
    }
}

/// The tools of a request are shown in their order: an MCP server as an object of
/// type `mcp`, a built-in tool in the form in which the client wrote it. Function
/// tools are not among them.
pub proof fn law_tools_are_written_one_by_one(
    a: Seq<ResponseTool>,
    b: Seq<ResponseTool>,
    x: ResponseTool,
)
    ensures
        tool_values(a + b) == tool_values(a) + tool_values(b),
        tool_values(Seq::<ResponseTool>::empty()) == Seq::<JsonView>::empty(),
        tool_values(seq![x]) == (match x {
            ResponseTool::Mcp(mcp) => seq![mcp_tool_value(mcp)],
            ResponseTool::WebSearchPreview(v) => seq![v@],
            ResponseTool::CodeInterpreter(v) => seq![v@],
            ResponseTool::Function => Seq::empty(),
        }),
    decreases b.len(),
{
    reveal_with_fuel(tool_values, 2);
    assert(seq![x].drop_last() =~= Seq::<ResponseTool>::empty());
    assert(tool_values(seq![x]) =~= (match x {
            ResponseTool::Mcp(mcp) => seq![mcp_tool_value(mcp)],
            ResponseTool::WebSearchPreview(v) => seq![v@],
            ResponseTool::CodeInterpreter(v) => seq![v@],
            ResponseTool::Function => Seq::empty(),
        }));
    if b.len() == 0 {
        assert(a + b =~= a);
        assert(tool_values(a) + tool_values(b) =~= tool_values(a));
    } else {
        law_tools_are_written_one_by_one(a, b.drop_last(), x);
        assert((a + b).drop_last() =~= a + b.drop_last());
        assert(tool_values(a + b) =~= tool_values(a) + tool_values(b));
    }
}

/// A field counts as missing where it is not there, is `null` or is an empty
/// text, and only there.
pub proof fn law_missing_fields(value: JsonView)
    ensures
        is_blank(None),
        value is Null ==> is_blank(Some(value)),
        value matches JsonView::Text(s) ==> is_blank(Some(value)) == (s.len() == 0),
        value is Bool || value is Number || value is Array || value is Object ==> !is_blank(
            Some(value),
        ),
{
}

/// A response is stored unless the request says otherwise.
pub proof fn law_stored_by_default(body: ResponsesRequest)
    ensures
        body.store is None ==> wants_store(body),
        body.store matches Some(wanted) ==> wants_store(body) == wanted,
{
}

/// What a completed response holds under each key: what the response gave, where
/// it gave something; else what the request gave. Whether it is stored and which
/// conversation it belongs to is as the request says. Every other entry stays.
pub proof fn law_completed_response(
    response: JsonView,
    body: ResponsesRequest,
    previous: Option<Seq<char>>,
    key: Seq<char>,
)
    requires
        response is Object,
    ensures
        ({
            let done = patched(response, body, previous);
            &&& done is Object
            &&& done.get("store"@) == Some(JsonView::Bool(body.store != Some(false)))
            &&& done.get("previous_response_id"@) == (if previous is Some && is_blank(
                response.get("previous_response_id"@),
            ) {
                Some(JsonView::Text(previous->0))
            } else {
                response.get("previous_response_id"@)
            })
            &&& done.get("instructions"@) == (if body.instructions is Some && is_blank(
                response.get("instructions"@),
            ) {
                Some(JsonView::Text(body.instructions->0@))
            } else {
                response.get("instructions"@)
            })
            &&& done.get("metadata"@) == (if body.metadata is Some && is_blank(
                response.get("metadata"@),
            ) {
                Some(JsonView::Object(entry_views(body.metadata->0@)))
            } else {
                response.get("metadata"@)
            })
            &&& done.get("model"@) == (if is_blank(response.get("model"@)) {
                Some(JsonView::Text(body.model@))
            } else {
                response.get("model"@)
            })
            &&& done.get("safety_identifier"@) == (if body.user is Some && (response.get(
                "safety_identifier"@,
            ) is None || response.get("safety_identifier"@) == Some(JsonView::Null)) {
                Some(JsonView::Text(body.user->0@))
            } else {
                response.get("safety_identifier"@)
            })
            &&& body.conversation matches Some(id) ==> (done.get("conversation"@) matches Some(
                conversation,
            ) && conversation.get_text("id"@) == Some(id@))
            &&& body.conversation is None ==> done.get("conversation"@) == response.get(
                "conversation"@,
            )
            &&& key != "store"@ && key != "previous_response_id"@ && key != "instructions"@ && key
                != "metadata"@ && key != "model"@ && key != "safety_identifier"@ && key
                != "conversation"@ ==> done.get(key) == response.get(key)
        }),
{
    lemma_words();
    if body.conversation is Some {
        law_listed_entry(seq![("id"@, JsonView::Text(body.conversation->0@))], 0);
    }
}

/// Of an event of a plain stream only the response is touched, and only where
/// the event carries a whole one: it then says whether it is stored, which
/// response it follows and which conversation it belongs to. An event is left as
/// it is only where all of that stands in it already.
pub proof fn law_rewritten_event(
    event: JsonView,
    body: ResponsesRequest,
    previous: Option<Seq<char>>,
    key: Seq<char>,
)
    requires
        event is Object,
    ensures
        ({
            let kind = event.get_text("type"@);
            let carries = (kind == Some("response.created"@) || kind == Some(
                "response.in_progress"@,
            ) || kind == Some("response.completed"@)) && event.get("response"@) is Some
                && event.get("response"@)->0 is Object;
            let given = event.get("response"@)->0;
            let stored = Some(JsonView::Bool(body.store != Some(false)));
            let follows = if previous is Some && is_blank(given.get("previous_response_id"@)) {
                Some(JsonView::Text(previous->0))
            } else {
                given.get("previous_response_id"@)
            };
            match rewritten_event(event, body, previous) {
                None => carries ==> {
                    &&& given.get("store"@) == stored
                    &&& given.get("previous_response_id"@) == follows
                    &&& body.conversation is None
                },
                Some(done) => {
                    &&& carries
                    &&& key != "response"@ ==> done.get(key) == event.get(key)
                    &&& done.get("response"@) matches Some(response)
                    &&& response.get("store"@) == stored
                    &&& response.get("previous_response_id"@) == follows
                    &&& body.conversation matches Some(id) ==> (response.get(
                        "conversation"@,
                    ) matches Some(conversation) && conversation.get_text("id"@) == Some(id@))
                    &&& body.conversation is None ==> response.get("conversation"@) == given.get(
                        "conversation"@,
                    )
                    &&& key != "store"@ && key != "previous_response_id"@ && key
                        != "conversation"@ ==> response.get(key) == given.get(key)
                },
            }
        }),
{
    lemma_words();
    reveal_strlit("");
    if body.conversation is Some {
        law_listed_entry(seq![("id"@, JsonView::Text(body.conversation->0@))], 0);
    }
}

/// A block is rewritten exactly where it holds an event that is: its data is then
/// the new event, and its other lines stay.
pub proof fn law_rewritten_block(
    block: Seq<char>,
    body: ResponsesRequest,
    previous: Option<Seq<char>>,
)
    ensures
        ({
            let data = block_data(trimmed(block));
            match rewritten_block(block, body, previous) {
                Some(done) => {
                    &&& json_of_text(data) matches Ok(event)
                    &&& rewritten_event(event, body, previous) matches Some(new_event)
                    &&& done == joined(
                        with_payload(lines_of(trimmed(block)), text_of_json(new_event)),
                        "\n"@,
                    )
                },
                None => {
                    ||| trimmed(block).len() == 0
                    ||| data.len() == 0
                    ||| json_of_text(data) is Err
                    ||| json_of_text(data) matches Ok(event) && rewritten_event(
                        event,
                        body,
                        previous,
                    ) is None
                },
            }
        }),
{
}

/// An MCP server is shown as the client named it, but never its credentials.
pub proof fn law_shown_server(mcp: McpTool, i: int)
    ensures
        ({
            let shown = mcp_tool_value(mcp);
            &&& shown.get_text("type"@) == Some("mcp"@)
            &&& shown.get_text("server_label"@) == Some(mcp.server_label@)
            &&& shown.get_text("server_url"@) == opt_view(mcp.server_url)
            &&& mcp.server_url is None ==> shown.get("server_url"@) is None
            &&& shown.get_text("server_description"@) == opt_view(mcp.server_description)
            &&& mcp.server_description is None ==> shown.get("server_description"@) is None
            &&& shown.get("require_approval"@) == opt_json(mcp.require_approval)
            &&& mcp.allowed_tools is None ==> shown.get("allowed_tools"@) is None
            &&& mcp.allowed_tools matches Some(list) ==> (shown.get_items(
                "allowed_tools"@,
            ) matches Some(names) && names.len() == list@.len() && (0 <= i < list@.len()
                ==> names[i] == JsonView::Text(list@[i]@)))
            &&& shown.get("authorization"@) is None
            &&& shown.get("headers"@) is None
        }),
{
    lemma_words();
    lemma_shown_key(mcp, "type"@);
    lemma_shown_key(mcp, "server_label"@);
    lemma_shown_key(mcp, "server_url"@);
    lemma_shown_key(mcp, "server_description"@);
    lemma_shown_key(mcp, "require_approval"@);
    lemma_shown_key(mcp, "allowed_tools"@);
    lemma_shown_key(mcp, "authorization"@);
    lemma_shown_key(mcp, "headers"@);
}

proof fn lemma_shown_key(mcp: McpTool, key: Seq<char>)
    ensures
        mcp_tool_value(mcp).get(key) == (if key == "type"@ {
            Some(JsonView::Text("mcp"@))
        } else if key == "server_label"@ {
            Some(JsonView::Text(mcp.server_label@))
        } else if key == "server_url"@ && mcp.server_url is Some {
            Some(JsonView::Text(mcp.server_url->0@))
        } else if key == "server_description"@ && mcp.server_description is Some {
            Some(JsonView::Text(mcp.server_description->0@))
        } else if key == "require_approval"@ && mcp.require_approval is Some {
            Some(mcp.require_approval->0@)
        } else if key == "allowed_tools"@ && mcp.allowed_tools is Some {
            Some(text_array(views(mcp.allowed_tools->0@)))
        } else {
            None
        }),
{
    lemma_words();
    let z = Seq::<(Seq<char>, JsonView)>::empty();
    let a = seq![("type"@, JsonView::Text("mcp"@))];
    let l = ("server_label"@, JsonView::Text(mcp.server_label@));
    let b = a.push(l);
    let c = with_text(b, "server_url"@, opt_view(mcp.server_url));
    let d = with_text(c, "server_description"@, opt_view(mcp.server_description));
    let e = with_value(d, "require_approval"@, opt_json(mcp.require_approval));
    assert(z.push(a[0]) =~= a);
    crate::laws::objects::law_unlisted_entry(z, key);
    law_appended_entry(z, a[0], key);
    law_appended_entry(a, l, key);
    if mcp.server_url is Some {
        law_appended_entry(b, ("server_url"@, JsonView::Text(mcp.server_url->0@)), key);
    }
    if mcp.server_description is Some {
        law_appended_entry(
            c,
            ("server_description"@, JsonView::Text(mcp.server_description->0@)),
            key,
        );
    }
    if mcp.require_approval is Some {
        law_appended_entry(d, ("require_approval"@, mcp.require_approval->0@), key);
    }
    if mcp.allowed_tools is Some {
        law_appended_entry(
            e,
            ("allowed_tools"@, text_array(views(mcp.allowed_tools->0@))),
            key,
        );
    }
}

/// A tool of a response is internal where it is a function of an internal
/// server, or the internal server itself.
pub proof fn law_internal_tools(tool: JsonView, session: McpToolSession<'_>)
    ensures
        !is_internal_tool_value(tool, None),
        tool.get_text("type"@) == Some("function"@) && tool.get_text("name"@) is Some
            ==> is_internal_tool_value(tool, Some(&session)) == session.tool_is_internal(
            tool.get_text("name"@)->0,
        ),
        tool.get_text("type"@) == Some("mcp"@) && tool.get_text("server_label"@) is Some
            ==> is_internal_tool_value(tool, Some(&session)) == session.label_is_internal(
            tool.get_text("server_label"@)->0,
        ),
        tool.get_text("type"@) != Some("function"@) && tool.get_text("type"@) != Some("mcp"@)
            ==> !is_internal_tool_value(tool, Some(&session)),
        tool.get_text("type"@) == Some("function"@) && tool.get_text("name"@) is None
            ==> !is_internal_tool_value(tool, Some(&session)),
        tool.get_text("type"@) == Some("mcp"@) && tool.get_text("server_label"@) is None
            ==> !is_internal_tool_value(tool, Some(&session)),
{
    lemma_words();
}

/// An output item is internal where it lists the tools of an internal server or
/// calls one of them.
pub proof fn law_internal_items(item: JsonView, session: McpToolSession<'_>)
    ensures
        !is_internal_output_item(item, None),
        item.get_text("type"@) == Some("mcp_list_tools"@) && item.get_text("server_label"@) is Some
            ==> is_internal_output_item(item, Some(&session)) == session.label_is_internal(
            item.get_text("server_label"@)->0,
        ),
        item.get_text("type"@) == Some("mcp_call"@) && item.get_text("name"@) is Some
            ==> is_internal_output_item(item, Some(&session)) == session.tool_is_internal(
            item.get_text("name"@)->0,
        ),
        item.get_text("type"@) == Some("mcp_call"@) && item.get_text("name"@) is None
            && item.get_text("server_label"@) is Some ==> is_internal_output_item(
            item,
            Some(&session),
        ) == session.label_is_internal(item.get_text("server_label"@)->0),
        item.get_text("type"@) == Some("function_call"@) && item.get_text("name"@) is Some
            ==> is_internal_output_item(item, Some(&session)) == session.tool_is_internal(
            item.get_text("name"@)->0,
        ),
        item.get_text("type"@) == Some("mcp_list_tools"@) && item.get_text("server_label"@) is None
            ==> !is_internal_output_item(item, Some(&session)),
        item.get_text("type"@) == Some("mcp_call"@) && item.get_text("name"@) is None
            && item.get_text("server_label"@) is None ==> !is_internal_output_item(
            item,
            Some(&session),
        ),
        item.get_text("type"@) == Some("function_call"@) && item.get_text("name"@) is None
            ==> !is_internal_output_item(item, Some(&session)),
        item.get_text("type"@) != Some("mcp_list_tools"@) && item.get_text("type"@) != Some(
            "mcp_call"@,
        ) && item.get_text("type"@) != Some("function_call"@) ==> !is_internal_output_item(
            item,
            Some(&session),
        ),
{
    lemma_words();
}

/// Hiding what is internal changes nothing but the tools and the output.
pub proof fn law_stripping_keeps_the_rest(
    response: JsonView,
    session: Option<&McpToolSession<'_>>,
    key: Seq<char>,
)
    requires
        response is Object,
    ensures
        ({
            let shown = without_internal_tools(without_internal_output(response, session), session);
            &&& key != "tools"@ && key != "output"@ ==> shown.get(key) == response.get(key)
            &&& response.get_items("tools"@) is None ==> shown.get("tools"@) == response.get(
                "tools"@,
            )
            &&& response.get_items("output"@) is None ==> shown.get("output"@) == response.get(
                "output"@,
            )
            &&& session is None ==> {
                &&& shown.get("tools"@) == response.get("tools"@)
                &&& shown.get("output"@) == response.get("output"@)
            }
        }),
{
    lemma_words();
    if session is None {
        if response.get_items("output"@) is Some {
            lemma_nothing_dropped(
                response.get_items("output"@)->0,
                |t: JsonView| is_internal_output_item(t, session),
            );
        }
        if response.get_items("tools"@) is Some {
            lemma_nothing_dropped(
                response.get_items("tools"@)->0,
                |t: JsonView| is_internal_tool_value(t, session),
            );
        }
    }
}

proof fn lemma_nothing_dropped(items: Seq<JsonView>, drop: spec_fn(JsonView) -> bool)
    requires
        forall|x: JsonView| !(#[trigger] drop(x)),
    ensures
        without_those(items, drop) == items,
    decreases items.len(),
{
    if items.len() > 0 {
        lemma_nothing_dropped(items.drop_last(), drop);
        assert(without_those(items, drop) =~= items);
    }
}

proof fn lemma_tool_value_is_there(tools: Seq<ResponseTool>, i: int)
    requires
        0 <= i < tools.len(),
        tool_value(tools[i]) is Some,
    ensures
        tool_values(tools).contains(tool_value(tools[i])->0),
    decreases tools.len(),
{
    let v = tool_value(tools[i])->0;
    let rest = tool_values(tools.drop_last());
    if i < tools.len() - 1 {
        lemma_tool_value_is_there(tools.drop_last(), i);
        let j = choose|j: int| 0 <= j < rest.len() && rest[j] == v;
        assert(tool_values(tools)[j] == v);
    } else {
        assert(tool_values(tools)[rest.len() as int] == v);
    }
}

/// The client gets back the tools that it asked for: every MCP server and every
/// built-in tool of the request is among the tools of the restored response, in
/// the form in which the client wrote it, unless it is internal.
pub proof fn law_requested_tools_are_restored(
    response: JsonView,
    tools: Vec<ResponseTool>,
    session: Option<&McpToolSession<'_>>,
    i: int,
)
    requires
        response is Object,
        0 <= i < tools@.len(),
    ensures
        ({
            let shown = restored(response, Some(tools), session).get_items("tools"@);
            &&& tools@[i] matches ResponseTool::WebSearchPreview(v) ==> !is_internal_tool_value(
                v@,
                session,
            ) ==> shown is Some && shown->0.contains(v@)
            &&& tools@[i] matches ResponseTool::CodeInterpreter(v) ==> !is_internal_tool_value(
                v@,
                session,
            ) ==> shown is Some && shown->0.contains(v@)
            &&& tools@[i] matches ResponseTool::Mcp(mcp) ==> !is_internal_tool_value(
                mcp_tool_value(mcp),
                session,
            ) ==> shown is Some && shown->0.contains(mcp_tool_value(mcp))
        }),
{
    lemma_words();
    if !(tools@[i] is Function) {
        let v = match tools@[i] {
            ResponseTool::Mcp(mcp) => mcp_tool_value(mcp),
            ResponseTool::WebSearchPreview(v) => v@,
            ResponseTool::CodeInterpreter(v) => v@,
            ResponseTool::Function => JsonView::Null,
        };
        lemma_tool_value_is_there(tools@, i);
        let drop = |t: JsonView| is_internal_tool_value(t, session);
        law_without_those(tool_values(tools@), drop, v);
        if !is_internal_tool_value(v, session) {
            assert(without_those(tool_values(tools@), drop).contains(v));
        }
    }
}

proof fn lemma_tool_value_is_of(tools: Seq<ResponseTool>, x: JsonView)
    requires
        tool_values(tools).contains(x),
    ensures
        exists|i: int| 0 <= i < tools.len() && tool_value(#[trigger] tools[i]) == Some(x),
    decreases tools.len(),
{
    let rest = tool_values(tools.drop_last());
    let j = choose|j: int| 0 <= j < tool_values(tools).len() && tool_values(tools)[j] == x;
    if j < rest.len() {
        assert(rest[j] == x);
        lemma_tool_value_is_of(tools.drop_last(), x);
        let i = choose|i: int|
            0 <= i < tools.drop_last().len() && tool_value(#[trigger] tools.drop_last()[i])
                == Some(x);
        assert(tools[i] == tools.drop_last()[i]);
    } else {
        assert(tool_value(tools[tools.len() - 1]) == Some(x));
    }
}

/// Whether a value is the form in which a tool of a request is shown.
pub open spec fn is_form_of(value: JsonView, tool: ResponseTool) -> bool {
    match tool {
        ResponseTool::Mcp(mcp) => value == mcp_tool_value(mcp),
        ResponseTool::WebSearchPreview(v) => value == v@,
        ResponseTool::CodeInterpreter(v) => value == v@,
        ResponseTool::Function => false,
    }
}

/// Where the request named MCP servers or built-in tools that are shown, the
/// tools of the restored response are those and no others, in their order, and
/// the model's choice among them is free unless the response says otherwise.
/// Where all of them are internal, no tools are shown; where there are none, the
/// tools of the response stay. Every other entry of the response stays.
pub proof fn law_restored_response(
    response: JsonView,
    tools: Option<Vec<ResponseTool>>,
    session: Option<&McpToolSession<'_>>,
    x: JsonView,
    key: Seq<char>,
)
    requires
        response is Object,
        unique_keys(response->Object_0),
    ensures
        ({
            let done = restored(response, tools, session);
            let asked = match tools {
                Some(list) => tool_values(list@),
                None => Seq::empty(),
            };
            let kept = without_those(asked, |t: JsonView| is_internal_tool_value(t, session));
            &&& done is Object
            &&& kept.len() > 0 ==> {
                &&& done.get_items("tools"@) == Some(kept)
                &&& kept.contains(x) ==> exists|i: int|
                    0 <= i < tools->0@.len() && is_form_of(x, #[trigger] tools->0@[i])
                &&& done.get("tool_choice"@) == (if response.get("tool_choice"@) is None {
                    Some(JsonView::Text("auto"@))
                } else {
                    response.get("tool_choice"@)
                })
            }
            &&& kept.len() == 0 ==> done.get("tool_choice"@) == response.get("tool_choice"@)
            &&& kept.len() == 0 && asked.len() > 0 ==> done.get("tools"@) is None
            &&& asked.len() == 0 ==> done.get("tools"@) == without_internal_tools(
                response,
                session,
            ).get("tools"@)
            &&& key != "tools"@ && key != "tool_choice"@ && key != "output"@ ==> done.get(key)
                == response.get(key)
        }),
{
    lemma_words();
    let asked = match tools {
        Some(list) => tool_values(list@),
        None => Seq::empty(),
    };
    let drop = |t: JsonView| is_internal_tool_value(t, session);
    let kept = without_those(asked, drop);
    let bare = without_internal_output(response, session);
    let stripped = without_internal_tools(bare, session);
    law_stripping_keeps_the_rest(response, session, key);
    law_stripping_keeps_the_rest(response, session, "tool_choice"@);
    if let Some(items) = response.get_items("output"@) {
        lemma_set_keeps_unique(
            response->Object_0,
            "output"@,
            JsonView::Array(
                without_those(items, |t: JsonView| is_internal_output_item(t, session)),
            ),
        );
    }
    if let Some(list) = bare.get_items("tools"@) {
        lemma_set_keeps_unique(
            bare->Object_0,
            "tools"@,
            JsonView::Array(without_those(list, drop)),
        );
    }
    law_removed_entry(stripped, "tools"@, "tools"@);
    law_removed_entry(stripped, "tools"@, "tool_choice"@);
    law_removed_entry(stripped, "tools"@, key);
    if kept.len() > 0 && kept.contains(x) {
        law_without_those(asked, drop, x);
        lemma_tool_value_is_of(tools->0@, x);
    }
}

/// The output of a restored response is its output without what is internal.
pub proof fn law_restored_output(
    response: JsonView,
    tools: Option<Vec<ResponseTool>>,
    session: Option<&McpToolSession<'_>>,
)
    requires
        response is Object,
        unique_keys(response->Object_0),
    ensures
        response.get_items("output"@) matches Some(items) ==> restored(
            response,
            tools,
            session,
        ).get_items("output"@) == Some(
            without_those(items, |t: JsonView| is_internal_output_item(t, session)),
        ),
        response.get_items("output"@) is None ==> restored(response, tools, session).get("output"@)
            == response.get("output"@),
        session is None ==> restored(response, tools, session).get("output"@) == response.get(
            "output"@,
        ),
{
    lemma_words();
    let drop = |t: JsonView| is_internal_tool_value(t, session);
    let bare = without_internal_output(response, session);
    let stripped = without_internal_tools(bare, session);
    law_stripping_keeps_the_rest(response, session, "output"@);
    if let Some(items) = response.get_items("output"@) {
        lemma_set_keeps_unique(
            response->Object_0,
            "output"@,
            JsonView::Array(
                without_those(items, |t: JsonView| is_internal_output_item(t, session)),
            ),
        );
    }
    if let Some(list) = bare.get_items("tools"@) {
        lemma_set_keeps_unique(
            bare->Object_0,
            "tools"@,
            JsonView::Array(without_those(list, drop)),
        );
    }
    law_removed_entry(stripped, "tools"@, "output"@);
}

} // verus!

//! Responses as the client gets them: completed from the request, and without
//! what is internal.

use vstd::prelude::*;

use crate::events::{is_response_event, is_response_type};
use crate::json::{
    entry_views, group_json_views, json_views, lemma_get_after_set, lemma_get_after_without,
    lemma_set_keeps_others, lemma_set_keeps_unique, push_value, unique_keys, Entries, Json,
    JsonView,
};
use crate::request::{McpTool, ResponseTool, ResponsesRequest};
use crate::session::McpToolSession;
use crate::sse::{
    block_data, event_name, law_rebuilt_block_reads_back, parse_sse_block, rebuild_sse_block,
    with_payload,
};
use crate::text::{joined, lines_of, opt_view, trim, trimmed, views};
use crate::wire::{json_of_text, parse, print, text_of_json};

verus! {

broadcast use vstd::string::group_string_axioms;

// ---------------------------------------------------------------------------
// Metadata of the request
// ---------------------------------------------------------------------------

/// Whether a value is missing, `null` or an empty text.
pub open spec fn is_blank(value: Option<JsonView>) -> bool {
    match value {
        None => true,
        Some(JsonView::Null) => true,
        Some(JsonView::Text(s)) => s.len() == 0,
        _ => false,
    }
}

/// Whether a value is missing, `null` or an empty text.
pub fn is_missing_or_empty(value: Option<&Json>) -> (r: bool)
    ensures
        r == is_blank(
            match value {
                Some(v) => Some(v@),
                None => None,
            },
        ),
{
    match value {
        None => true,
        Some(v) => match v {
            Json::Null => true,
            Json::Text(s) => s.as_str().is_empty(),
            _ => false,
        },
    }
}

/// An object with `key` holding `text`, where it held nothing.
pub open spec fn fill(obj: JsonView, key: Seq<char>, text: Option<Seq<char>>) -> JsonView {
    match text {
        Some(t) => if is_blank(obj.get(key)) {
            obj.set(key, JsonView::Text(t))
        } else {
            obj
        },
        None => obj,
    }
}

/// An object with the metadata of the request, where it had none.
pub open spec fn fill_metadata(obj: JsonView, metadata: Option<Vec<(String, Json)>>) -> JsonView {
    match metadata {
        Some(m) => if is_blank(obj.get("metadata"@)) {
            obj.set("metadata"@, JsonView::Object(entry_views(m@)))
        } else {
            obj
        },
        None => obj,
    }
}

/// Whether a value is missing or `null`.
pub open spec fn is_absent(value: Option<JsonView>) -> bool {
    value is None || value == Some(JsonView::Null)
}

/// An object with the user of the request as its safety identifier, where it
/// has none or one that is `null`.
pub open spec fn fill_safety_identifier(obj: JsonView, user: Option<Seq<char>>) -> JsonView {
    match user {
        Some(u) => if is_absent(obj.get("safety_identifier"@)) {
            obj.set("safety_identifier"@, JsonView::Text(u))
        } else {
            obj
        },
        None => obj,
    }
}

/// A JSON object that names a conversation.
pub open spec fn conversation_object(id: Seq<char>) -> JsonView {
    JsonView::Object(seq![("id"@, JsonView::Text(id))])
}

/// An object with the conversation of the request.
pub open spec fn with_conversation(obj: JsonView, conversation: Option<Seq<char>>) -> JsonView {
    match conversation {
        Some(id) => obj.set("conversation"@, conversation_object(id)),
        None => obj,
    }
}

/// Whether a response is to be stored.
pub open spec fn wants_store(body: ResponsesRequest) -> bool {
    body.store != Some(false)
}

/// A response completed from its request. A value that is no object stays as it
/// is.
pub open spec fn patched(
    response: JsonView,
    body: ResponsesRequest,
    previous: Option<Seq<char>>,
) -> JsonView {
    let a = fill(response, "previous_response_id"@, previous);
    let b = fill(a, "instructions"@, opt_view(body.instructions));
    let c = fill_metadata(b, body.metadata);
    let d = c.set("store"@, JsonView::Bool(wants_store(body)));
    let e = fill(d, "model"@, Some(body.model@));
    let f = fill_safety_identifier(e, opt_view(body.user));
    with_conversation(f, opt_view(body.conversation))
}

/// Puts `text` under `key`, where it held nothing.
fn fill_text(obj: &mut Json, key: &str, text: &str)
    ensures
        final(obj)@ == fill(old(obj)@, key@, Some(text@)),
{
    if is_missing_or_empty(obj.get(key)) {
        obj.set(key, Json::text(text));
    }
}

/// A JSON object that names a conversation.
fn make_conversation(id: &str) -> (json: Json)
    ensures
        json@ == conversation_object(id@),
{
    let entries = Entries::new().with("id", Json::text(id));
    assert(entries@ =~= seq![("id"@, JsonView::Text(id@))]);
    entries.into_object()
}

/// Completes a response from its request: what the model server left out is
/// filled in; `store` and the conversation are always those of the request.
pub fn patch_response_with_request_metadata(
    response_json: &mut Json,
    original_body: &ResponsesRequest,
    original_previous_response_id: Option<&str>,
)
    ensures
        final(response_json)@ == patched(
            old(response_json)@,
            *original_body,
            match original_previous_response_id {
                Some(p) => Some(p@),
                None => None,
            },
        ),
{
    broadcast use group_json_views;

    if let Some(previous) = original_previous_response_id {
        fill_text(response_json, "previous_response_id", previous);
    }
    if let Some(instructions) = &original_body.instructions {
        fill_text(response_json, "instructions", instructions.as_str());
    }
    if let Some(metadata) = &original_body.metadata {
        if is_missing_or_empty(response_json.get("metadata")) {
            response_json.set("metadata", Json::Object(crate::json::clone_entries(metadata)));
        }
    }
    let store: bool = match original_body.store {
        Some(b) => b,
        None => true,
    };
    response_json.set("store", Json::Bool(store));
    fill_text(response_json, "model", original_body.model.as_str());
    if let Some(user) = &original_body.user {
        let is_absent: bool = match response_json.get("safety_identifier") {
            Some(v) => v.is_null(),
            None => true,
        };
        if is_absent {
            response_json.set("safety_identifier", Json::text(user.as_str()));
        }
    }
    if let Some(conversation) = &original_body.conversation {
        response_json.set("conversation", make_conversation(conversation.as_str()));
    }
}

proof fn lemma_fill_keeps(obj: JsonView, key: Seq<char>, text: Option<Seq<char>>, other: Seq<char>)
    ensures
        obj is Object ==> fill(obj, key, text) is Object,
        other != key || !is_blank(obj.get(key)) ==> fill(obj, key, text).get(other) == obj.get(
            other,
        ),
{
    if text is Some && is_blank(obj.get(key)) {
        if other != key {
            lemma_set_keeps_others(obj, key, JsonView::Text(text->0), other);
        }
    }
}

/// The keys that completing a response writes, from one another.
proof fn lemma_patch_keys_differ()
    ensures
        "store"@ != "model"@,
        "store"@ != "safety_identifier"@,
        "store"@ != "conversation"@,
        "store"@ != "previous_response_id"@,
        "store"@ != "instructions"@,
        "store"@ != "metadata"@,
        "instructions"@ != "previous_response_id"@,
        "instructions"@ != "metadata"@,
        "instructions"@ != "model"@,
        "instructions"@ != "safety_identifier"@,
        "instructions"@ != "conversation"@,
        "previous_response_id"@ != "metadata"@,
        "previous_response_id"@ != "model"@,
        "previous_response_id"@ != "safety_identifier"@,
        "previous_response_id"@ != "conversation"@,
        "metadata"@ != "model"@,
        "metadata"@ != "safety_identifier"@,
        "metadata"@ != "conversation"@,
        "model"@ != "safety_identifier"@,
        "model"@ != "conversation"@,
        "safety_identifier"@ != "conversation"@,
{
    reveal_strlit("store");
    reveal_strlit("model");
    reveal_strlit("safety_identifier");
    reveal_strlit("conversation");
    reveal_strlit("previous_response_id");
    reveal_strlit("instructions");
    reveal_strlit("metadata");
    assert("store"@[0] == 's' && "model"@[0] == 'm');
    assert("store"@.len() == 5 && "model"@.len() == 5 && "safety_identifier"@.len() == 17
        && "conversation"@.len() == 12 && "previous_response_id"@.len() == 20
        && "instructions"@.len() == 12 && "metadata"@.len() == 8);
    assert("instructions"@[0] == 'i' && "conversation"@[0] == 'c');
}

/// A completed response always says whether it is stored, as the request asked:
/// by default it is.
pub proof fn law_patch_sets_store(
    response: JsonView,
    body: ResponsesRequest,
    previous: Option<Seq<char>>,
)
    requires
        response is Object,
    ensures
        patched(response, body, previous).get("store"@) == Some(
            JsonView::Bool(wants_store(body)),
        ),
{
    lemma_patch_keys_differ();
    lemma_patched_entry(response, body, previous, "store"@);
}

/// Instructions that the response carries already are never replaced.
pub proof fn law_patch_keeps_given_instructions(
    response: JsonView,
    body: ResponsesRequest,
    previous: Option<Seq<char>>,
)
    requires
        !is_blank(response.get("instructions"@)),
    ensures
        patched(response, body, previous).get("instructions"@) == response.get("instructions"@),
{
    lemma_patch_keys_differ();
    let key = "instructions"@;
    let a = fill(response, "previous_response_id"@, previous);
    let b = fill(a, key, opt_view(body.instructions));
    let c = fill_metadata(b, body.metadata);
    let d = c.set("store"@, JsonView::Bool(wants_store(body)));
    let e = fill(d, "model"@, Some(body.model@));
    let f = fill_safety_identifier(e, opt_view(body.user));
    lemma_fill_keeps(response, "previous_response_id"@, previous, key);
    lemma_fill_keeps(a, key, opt_view(body.instructions), key);
    if body.metadata is Some {
        lemma_set_keeps_others(
            b,
            "metadata"@,
            JsonView::Object(entry_views(body.metadata->0@)),
            key,
        );
    }
    lemma_set_keeps_others(c, "store"@, JsonView::Bool(wants_store(body)), key);
    lemma_fill_keeps(d, "model"@, Some(body.model@), key);
    if body.user is Some {
        lemma_set_keeps_others(e, "safety_identifier"@, JsonView::Text(body.user->0@), key);
    }
    if body.conversation is Some {
        lemma_set_keeps_others(
            f,
            "conversation"@,
            conversation_object(body.conversation->0@),
            key,
        );
    }
}

/// A field of the request that the response lacks is there in the completed
/// response.
pub proof fn law_patch_preserves_the_request(
    response: JsonView,
    body: ResponsesRequest,
    previous: Option<Seq<char>>,
)
    requires
        response is Object,
    ensures
        ({
            let done = patched(response, body, previous);
            &&& previous is Some && is_blank(response.get("previous_response_id"@)) ==> done.get(
                "previous_response_id"@,
            ) == Some(JsonView::Text(previous->0))
            &&& body.instructions is Some && is_blank(response.get("instructions"@)) ==> done.get(
                "instructions"@,
            ) == Some(JsonView::Text(body.instructions->0@))
            &&& body.metadata is Some && is_blank(response.get("metadata"@)) ==> done.get(
                "metadata"@,
            ) == Some(JsonView::Object(entry_views(body.metadata->0@)))
            &&& is_blank(response.get("model"@)) ==> done.get("model"@) == Some(
                JsonView::Text(body.model@),
            )
            &&& body.user is Some && is_absent(response.get("safety_identifier"@)) ==> done.get(
                "safety_identifier"@,
            ) == Some(JsonView::Text(body.user->0@))
            &&& body.conversation is Some ==> done.get("conversation"@) == Some(
                conversation_object(body.conversation->0@),
            )
        }),
{
    lemma_patch_keys_differ();
    lemma_patched_entry(response, body, previous, "previous_response_id"@);
    lemma_patched_entry(response, body, previous, "instructions"@);
    lemma_patched_entry(response, body, previous, "metadata"@);
    lemma_patched_entry(response, body, previous, "model"@);
    lemma_patched_entry(response, body, previous, "safety_identifier"@);
    lemma_patched_entry(response, body, previous, "conversation"@);
}

/// What completing a response does to one of its entries.
proof fn lemma_patched_entry(
    response: JsonView,
    body: ResponsesRequest,
    previous: Option<Seq<char>>,
    key: Seq<char>,
)
    requires
        response is Object,
    ensures
        patched(response, body, previous).get(key) == ({
            let given = response.get(key);
            if key == "previous_response_id"@ {
                filled(given, previous)
            } else if key == "instructions"@ {
                filled(given, opt_view(body.instructions))
            } else if key == "metadata"@ {
                if body.metadata is Some && is_blank(given) {
                    Some(JsonView::Object(entry_views(body.metadata->0@)))
                } else {
                    given
                }
            } else if key == "store"@ {
                Some(JsonView::Bool(wants_store(body)))
            } else if key == "model"@ {
                filled(given, Some(body.model@))
            } else if key == "safety_identifier"@ {
                if body.user is Some && is_absent(given) {
                    Some(JsonView::Text(body.user->0@))
                } else {
                    given
                }
            } else if key == "conversation"@ && body.conversation is Some {
                Some(conversation_object(body.conversation->0@))
            } else {
                given
            }
        }),
{
    lemma_patch_keys_differ();
    let a = fill(response, "previous_response_id"@, previous);
    let b = fill(a, "instructions"@, opt_view(body.instructions));
    let c = fill_metadata(b, body.metadata);
    let d = c.set("store"@, JsonView::Bool(wants_store(body)));
    let e = fill(d, "model"@, Some(body.model@));
    let f = fill_safety_identifier(e, opt_view(body.user));
    lemma_fill_entry(response, "previous_response_id"@, previous, key);
    lemma_fill_entry(a, "instructions"@, opt_view(body.instructions), key);
    if body.metadata is Some {
        lemma_set_entry(b, "metadata"@, JsonView::Object(entry_views(body.metadata->0@)), key);
    }
    lemma_set_entry(c, "store"@, JsonView::Bool(wants_store(body)), key);
    lemma_fill_entry(d, "model"@, Some(body.model@), key);
    if body.user is Some {
        lemma_set_entry(e, "safety_identifier"@, JsonView::Text(body.user->0@), key);
    }
    if body.conversation is Some {
        lemma_set_entry(f, "conversation"@, conversation_object(body.conversation->0@), key);
    }
}

/// A value, or `text` where it is missing, `null` or empty.
pub open spec fn filled(value: Option<JsonView>, text: Option<Seq<char>>) -> Option<JsonView> {
    if text is Some && is_blank(value) {
        Some(JsonView::Text(text->0))
    } else {
        value
    }
}

proof fn lemma_set_entry(obj: JsonView, key: Seq<char>, value: JsonView, other: Seq<char>)
    requires
        obj is Object,
    ensures
        obj.set(key, value) is Object,
        obj.set(key, value).get(other) == (if other == key {
            Some(value)
        } else {
            obj.get(other)
        }),
{
    if other == key {
        lemma_get_after_set(obj, key, value);
    } else {
        lemma_set_keeps_others(obj, key, value, other);
    }
}

proof fn lemma_fill_entry(obj: JsonView, key: Seq<char>, text: Option<Seq<char>>, other: Seq<char>)
    requires
        obj is Object,
    ensures
        fill(obj, key, text) is Object,
        fill(obj, key, text).get(other) == (if other == key {
            filled(obj.get(key), text)
        } else {
            obj.get(other)
        }),
{
    if text is Some {
        lemma_set_entry(obj, key, JsonView::Text(text->0), other);
    }
}

// ---------------------------------------------------------------------------
// Streamed blocks
// ---------------------------------------------------------------------------

/// The response of an event after it was completed.
pub open spec fn completed_response(
    response: JsonView,
    body: ResponsesRequest,
    previous: Option<Seq<char>>,
) -> JsonView {
    let stored = if response.get("store"@) == Some(JsonView::Bool(wants_store(body))) {
        response
    } else {
        response.set("store"@, JsonView::Bool(wants_store(body)))
    };
    with_conversation(
        fill(stored, "previous_response_id"@, previous),
        opt_view(body.conversation),
    )
}

/// Whether completing a response has something to write.
pub open spec fn needs_completion(
    response: JsonView,
    body: ResponsesRequest,
    previous: Option<Seq<char>>,
) -> bool {
    ||| response.get("store"@) != Some(JsonView::Bool(wants_store(body)))
    ||| previous is Some && is_blank(response.get("previous_response_id"@))
    ||| body.conversation is Some
}

/// The type of an event; empty where it has none.
pub open spec fn type_of(event: JsonView) -> Seq<char> {
    match event.get_text("type"@) {
        Some(t) => t,
        None => Seq::empty(),
    }
}

/// A streamed event after its response was completed; `None` where nothing
/// changes.
pub open spec fn rewritten_event(
    event: JsonView,
    body: ResponsesRequest,
    previous: Option<Seq<char>>,
) -> Option<JsonView> {
    if !is_response_type(type_of(event)) {
        None
    } else {
        match event.get("response"@) {
            Some(response) => if response is Object && needs_completion(response, body, previous) {
                Some(event.set("response"@, completed_response(response, body, previous)))
            } else {
                None
            },
            None => None,
        }
    }
}

/// The key of what an earlier write changed does not matter for a blank one.
proof fn lemma_store_leaves_previous(response: JsonView, value: JsonView)
    ensures
        response.set("store"@, value).get("previous_response_id"@) == response.get(
            "previous_response_id"@,
        ),
{
    lemma_patch_keys_differ();
    lemma_set_keeps_others(response, "store"@, value, "previous_response_id"@);
}

/// The type of an event; empty where it has none.
fn event_type(event: &Json) -> (t: &str)
    ensures
        t@ == type_of(event@),
{
    match event.get_str("type") {
        Some(t) => t,
        None => {
            proof {
                reveal_strlit("");
                assert(""@ =~= Seq::<char>::empty());
            }
            ""
        },
    }
}

/// A streamed event with its response completed; `None` where nothing changes.
pub fn rewrite_event(
    event: Json,
    original_body: &ResponsesRequest,
    original_previous_response_id: Option<&str>,
) -> (r: Option<Json>)
    ensures
        crate::json::opt_json(r) == rewritten_event(
            event@,
            *original_body,
            match original_previous_response_id {
                Some(p) => Some(p@),
                None => None,
            },
        ),
{
    if !is_response_event(event_type(&event)) {
        return None;
    }
    let mut response = match event.get("response") {
        Some(v) => if v.is_object() {
            v.clone()
        } else {
            return None;
        },
        None => {
            return None;
        },
    };
    let ghost start = response@;
    let mut changed: bool = false;
    let store: bool = match original_body.store {
        Some(b) => b,
        None => true,
    };
    let stored: bool = match response.get("store") {
        Some(v) => match v {
            Json::Bool(b) => *b == store,
            _ => false,
        },
        None => false,
    };
    if !stored {
        proof {
            lemma_store_leaves_previous(start, JsonView::Bool(store));
        }
        response.set("store", Json::Bool(store));
        changed = true;
    }
    if let Some(previous) = original_previous_response_id {
        if is_missing_or_empty(response.get("previous_response_id")) {
            response.set("previous_response_id", Json::text(previous));
            changed = true;
        }
    }
    if let Some(conversation) = &original_body.conversation {
        response.set("conversation", make_conversation(conversation.as_str()));
        changed = true;
    }
    if !changed {
        return None;
    }
    let mut event = event;
    event.set("response", response);
    Some(event)
}

/// A streamed block with the response of its event completed; `None` where
/// nothing changes.
pub open spec fn rewritten_block(
    block: Seq<char>,
    body: ResponsesRequest,
    previous: Option<Seq<char>>,
) -> Option<Seq<char>> {
    let inner = trimmed(block);
    if inner.len() == 0 || block_data(inner).len() == 0 {
        None
    } else {
        match json_of_text(block_data(inner)) {
            Err(_) => None,
            Ok(event) => match rewritten_event(event, body, previous) {
                Some(new_event) => Some(
                    joined(with_payload(lines_of(inner), text_of_json(new_event)), "\n"@),
                ),
                None => None,
            },
        }
    }
}

/// A streamed block with the response of its event completed; `None` where
/// nothing changes: the block holds no JSON, its event carries no response, or
/// the response is complete. A block that is given reads back as the completed
/// event, under the name that it had.
pub fn rewrite_streaming_block(
    block: &str,
    original_body: &ResponsesRequest,
    original_previous_response_id: Option<&str>,
) -> (r: Option<String>)
    ensures
        opt_view(r) == rewritten_block(
            block@,
            *original_body,
            match original_previous_response_id {
                Some(p) => Some(p@),
                None => None,
            },
        ),
        r matches Some(b) ==> {
            &&& event_name(lines_of(b@)) == event_name(lines_of(trimmed(block@)))
            &&& json_of_text(block_data(trimmed(block@))) matches Ok(event)
            &&& rewritten_event(
                event,
                *original_body,
                match original_previous_response_id {
                    Some(p) => Some(p@),
                    None => None,
                },
            ) matches Some(new_event)
            &&& block_data(b@) == text_of_json(new_event)
        },
{
    let inner = trim(block);
    if inner.is_empty() {
        return None;
    }
    let data = parse_sse_block(inner).1;
    if data.as_str().is_empty() {
        return None;
    }
    match parse(data.as_str()) {
        Err(_) => None,
        Ok(event) => match rewrite_event(event, original_body, original_previous_response_id) {
            Some(new_event) => {
                let payload = print(&new_event);
                proof {
                    law_rebuilt_block_reads_back(inner@, payload@);
                }
                Some(rebuild_sse_block(inner, payload.as_str()))
            },
            None => None,
        },
    }
}

// ---------------------------------------------------------------------------
// Tools of the request
// ---------------------------------------------------------------------------

/// Entries with `key` holding a text, where there is one.
pub open spec fn with_text(
    entries: Seq<(Seq<char>, JsonView)>,
    key: Seq<char>,
    text: Option<Seq<char>>,
) -> Seq<(Seq<char>, JsonView)> {
    match text {
        Some(t) => entries.push((key, JsonView::Text(t))),
        None => entries,
    }
}

/// Entries with `key` holding a value, where there is one.
pub open spec fn with_value(
    entries: Seq<(Seq<char>, JsonView)>,
    key: Seq<char>,
    value: Option<JsonView>,
) -> Seq<(Seq<char>, JsonView)> {
    match value {
        Some(v) => entries.push((key, v)),
        None => entries,
    }
}

/// A list of texts as a JSON array.
pub open spec fn text_array(list: Seq<Seq<char>>) -> JsonView {
    JsonView::Array(list.map_values(|t: Seq<char>| JsonView::Text(t)))
}

/// An MCP tool as the client wrote it, without its credentials.
pub open spec fn mcp_tool_value(mcp: McpTool) -> JsonView {
    let a = seq![("type"@, JsonView::Text("mcp"@))];
    let b = a.push(("server_label"@, JsonView::Text(mcp.server_label@)));
    let c = with_text(b, "server_url"@, opt_view(mcp.server_url));
    let d = with_text(c, "server_description"@, opt_view(mcp.server_description));
    let e = with_value(d, "require_approval"@, crate::json::opt_json(mcp.require_approval));
    JsonView::Object(
        match mcp.allowed_tools {
            Some(list) => e.push(("allowed_tools"@, text_array(views(list@)))),
            None => e,
        },
    )
}

/// A tool as the client wrote it; `None` for function tools, which the model
/// gets as they are.
pub open spec fn tool_value(tool: ResponseTool) -> Option<JsonView> {
    match tool {
        ResponseTool::Mcp(mcp) => Some(mcp_tool_value(mcp)),
        ResponseTool::WebSearchPreview(v) => Some(v@),
        ResponseTool::CodeInterpreter(v) => Some(v@),
        ResponseTool::Function => None,
    }
}

/// A list of texts as a JSON array.
fn make_text_array(list: &Vec<String>) -> (json: Json)
    ensures
        json@ == text_array(views(list@)),
{
    broadcast use group_json_views;

    let mut items: Vec<Json> = Vec::new();
    for i in 0..list.len()
        invariant
            items@.len() == i,
            forall|j: int|
                0 <= j < i ==> (#[trigger] items@[j])@ == JsonView::Text(list@[j]@),
    {
        items.push(Json::text(list[i].as_str()));
    }
    assert(json_views(items@) =~= text_array(views(list@))->Array_0);
    Json::Array(items)
}

/// A tool as the client wrote it; `None` for function tools.
pub fn response_tool_to_value(tool: &ResponseTool) -> (r: Option<Json>)
    ensures
        crate::json::opt_json(r) == tool_value(*tool),
{
    match tool {
        ResponseTool::Mcp(mcp) => {
            let mut entries = Entries::new().with("type", Json::text("mcp")).with(
                "server_label",
                Json::text(mcp.server_label.as_str()),
            );
            proof {
                let a = seq![("type"@, JsonView::Text("mcp"@))];
                assert(entries@ =~= a.push(
                    ("server_label"@, JsonView::Text(mcp.server_label@)),
                ));
            }
            if let Some(url) = &mcp.server_url {
                entries = entries.with("server_url", Json::text(url.as_str()));
            }
            if let Some(description) = &mcp.server_description {
                entries = entries.with("server_description", Json::text(description.as_str()));
            }
            if let Some(approval) = &mcp.require_approval {
                entries = entries.with("require_approval", approval.clone());
            }
            if let Some(allowed) = &mcp.allowed_tools {
                entries = entries.with("allowed_tools", make_text_array(allowed));
            }
            Some(entries.into_object())
        },
        ResponseTool::WebSearchPreview(v) => Some(v.clone()),
        ResponseTool::CodeInterpreter(v) => Some(v.clone()),
        ResponseTool::Function => None,
    }
}

// ---------------------------------------------------------------------------
// Internal servers
// ---------------------------------------------------------------------------

/// Whether a tool of a response belongs to an internal server.
pub open spec fn is_internal_tool_value(tool: JsonView, session: Option<&McpToolSession<'_>>) -> bool {
    match session {
        None => false,
        Some(s) => {
            let kind = tool.get_text("type"@);
            if kind == Some("function"@) && tool.get_text("name"@) is Some {
                s.tool_is_internal(tool.get_text("name"@)->0)
            } else if kind == Some("mcp"@) && tool.get_text("server_label"@) is Some {
                s.label_is_internal(tool.get_text("server_label"@)->0)
            } else {
                false
            }
        },
    }
}

/// Whether an output item of a response belongs to an internal server.
pub open spec fn is_internal_output_item(
    item: JsonView,
    session: Option<&McpToolSession<'_>>,
) -> bool {
    match session {
        None => false,
        Some(s) => {
            let kind = item.get_text("type"@);
            let name = item.get_text("name"@);
            let label = item.get_text("server_label"@);
            if kind == Some("mcp_list_tools"@) {
                label is Some && s.label_is_internal(label->0)
            } else if kind == Some("mcp_call"@) {
                if name is Some {
                    s.tool_is_internal(name->0)
                } else {
                    label is Some && s.label_is_internal(label->0)
                }
            } else if kind == Some("function_call"@) {
                name is Some && s.tool_is_internal(name->0)
            } else {
                false
            }
        },
    }
}

/// The items that do not have a property.
pub open spec fn without_those(items: Seq<JsonView>, drop: spec_fn(JsonView) -> bool) -> Seq<JsonView>
    decreases items.len(),
{
    if items.len() == 0 {
        items
    } else if drop(items.last()) {
        without_those(items.drop_last(), drop)
    } else {
        without_those(items.drop_last(), drop).push(items.last())
    }
}

/// An item is kept exactly when it was there and does not have the property.
pub proof fn law_without_those(items: Seq<JsonView>, drop: spec_fn(JsonView) -> bool, x: JsonView)
    ensures
        without_those(items, drop).contains(x) <==> items.contains(x) && !drop(x),
    decreases items.len(),
{
    if items.len() > 0 {
        let rest = items.drop_last();
        let last = items.last();
        law_without_those(rest, drop, x);
        assert(items =~= rest.push(last));
        let kept = without_those(rest, drop);
        if kept.contains(x) {
            let k = choose|k: int| 0 <= k < kept.len() && kept[k] == x;
            assert(kept.push(last)[k] == x);
        }
        if rest.contains(x) {
            let k = choose|k: int| 0 <= k < rest.len() && rest[k] == x;
            assert(items[k] == x);
        }
        if x == last {
            assert(items[items.len() - 1] == x);
            assert(kept.push(last)[kept.len() as int] == x);
        }
        if kept.push(last).contains(x) && x != last {
            let k = choose|k: int| 0 <= k < kept.push(last).len() && kept.push(last)[k] == x;
            assert(kept[k] == x);
        }
        if items.contains(x) && x != last {
            let k = choose|k: int| 0 <= k < items.len() && items[k] == x;
            assert(rest[k] == x);
        }
    }
}

/// A response without the tools of internal servers.
pub open spec fn without_internal_tools(
    response: JsonView,
    session: Option<&McpToolSession<'_>>,
) -> JsonView {
    match response.get_items("tools"@) {
        Some(tools) => response.set(
            "tools"@,
            JsonView::Array(
                without_those(tools, |t: JsonView| is_internal_tool_value(t, session)),
            ),
        ),
        None => response,
    }
}

/// A response without the output items of internal servers.
pub open spec fn without_internal_output(
    response: JsonView,
    session: Option<&McpToolSession<'_>>,
) -> JsonView {
    match response.get_items("output"@) {
        Some(items) => response.set(
            "output"@,
            JsonView::Array(
                without_those(items, |t: JsonView| is_internal_output_item(t, session)),
            ),
        ),
        None => response,
    }
}

/// Whether a tool of a response belongs to an internal server.
pub fn is_internal_mcp_tool_value(tool: &Json, session: Option<&McpToolSession<'_>>) -> (r: bool)
    ensures
        r == is_internal_tool_value(tool@, session),
{
    match session {
        None => false,
        Some(s) => {
            if tool.text_is("type", "function") {
                if let Some(name) = tool.get_str("name") {
                    return s.is_internal_tool(name);
                }
            }
            if tool.text_is("type", "mcp") {
                if let Some(label) = tool.get_str("server_label") {
                    return s.is_internal_server_label(label);
                }
            }
            proof {
                reveal_strlit("function");
                reveal_strlit("mcp");
                assert("function"@.len() == 8 && "mcp"@.len() == 3);
            }
            false
        },
    }
}

/// Whether an output item of a response belongs to an internal server.
pub fn is_internal_mcp_output_item(item: &Json, session: Option<&McpToolSession<'_>>) -> (r: bool)
    ensures
        r == is_internal_output_item(item@, session),
{
    match session {
        None => false,
        Some(s) => {
            if item.text_is("type", "mcp_list_tools") {
                match item.get_str("server_label") {
                    Some(label) => s.is_internal_server_label(label),
                    None => false,
                }
            } else if item.text_is("type", "mcp_call") {
                match item.get_str("name") {
                    Some(name) => s.is_internal_tool(name),
                    None => match item.get_str("server_label") {
                        Some(label) => s.is_internal_server_label(label),
                        None => false,
                    },
                }
            } else if item.text_is("type", "function_call") {
                match item.get_str("name") {
                    Some(name) => s.is_internal_tool(name),
                    None => false,
                }
            } else {
                false
            }
        },
    }
}

/// The tools that do not belong to internal servers.
fn keep_public_tools(tools: &Vec<Json>, session: Option<&McpToolSession<'_>>) -> (kept: Vec<Json>)
    ensures
        json_views(kept@) == without_those(
            json_views(tools@),
            |t: JsonView| is_internal_tool_value(t, session),
        ),
{
    let ghost has = |t: JsonView| is_internal_tool_value(t, session);
    let ghost all = json_views(tools@);
    let mut kept: Vec<Json> = Vec::new();
    assert(json_views(kept@) =~= without_those(all.take(0), has));
    for i in 0..tools.len()
        invariant
            all == json_views(tools@),
            has == (|t: JsonView| is_internal_tool_value(t, session)),
            json_views(kept@) == without_those(all.take(i as int), has),
    {
        proof {
            let next = all.take(i + 1);
            assert(next.drop_last() =~= all.take(i as int));
            assert(next.last() == tools@[i as int]@);
        }
        if !is_internal_mcp_tool_value(&tools[i], session) {
            push_value(&mut kept, tools[i].clone());
        }
    }
    assert(all.take(tools@.len() as int) =~= all);
    kept
}

/// The output items that do not belong to internal servers.
fn keep_public_items(items: &Vec<Json>, session: Option<&McpToolSession<'_>>) -> (kept: Vec<Json>)
    ensures
        json_views(kept@) == without_those(
            json_views(items@),
            |t: JsonView| is_internal_output_item(t, session),
        ),
{
    let ghost has = |t: JsonView| is_internal_output_item(t, session);
    let ghost all = json_views(items@);
    let mut kept: Vec<Json> = Vec::new();
    assert(json_views(kept@) =~= without_those(all.take(0), has));
    for i in 0..items.len()
        invariant
            all == json_views(items@),
            has == (|t: JsonView| is_internal_output_item(t, session)),
            json_views(kept@) == without_those(all.take(i as int), has),
    {
        proof {
            let next = all.take(i + 1);
            assert(next.drop_last() =~= all.take(i as int));
            assert(next.last() == items@[i as int]@);
        }
        if !is_internal_mcp_output_item(&items[i], session) {
            push_value(&mut kept, items[i].clone());
        }
    }
    assert(all.take(items@.len() as int) =~= all);
    kept
}

/// Takes the tools of internal servers out of a response.
pub fn strip_internal_mcp_tools(resp: &mut Json, session: Option<&McpToolSession<'_>>)
    ensures
        final(resp)@ == without_internal_tools(old(resp)@, session),
{
    broadcast use group_json_views;

    let kept = match resp.get_array("tools") {
        Some(tools) => keep_public_tools(tools, session),
        None => {
            return;
        },
    };
    resp.set("tools", Json::Array(kept));
}

/// Takes the output items of internal servers out of a response.
pub fn strip_internal_mcp_output_items(resp: &mut Json, session: Option<&McpToolSession<'_>>)
    ensures
        final(resp)@ == without_internal_output(old(resp)@, session),
{
    broadcast use group_json_views;

    let kept = match resp.get_array("output") {
        Some(items) => keep_public_items(items, session),
        None => {
            return;
        },
    };
    resp.set("output", Json::Array(kept));
}

/// The tools of a request as the client wrote them.
pub open spec fn tool_values(tools: Seq<ResponseTool>) -> Seq<JsonView>
    decreases tools.len(),
{
    if tools.len() == 0 {
        Seq::empty()
    } else {
        match tool_value(tools.last()) {
            Some(v) => tool_values(tools.drop_last()).push(v),
            None => tool_values(tools.drop_last()),
        }
    }
}

/// A response with the tools of the request in place of those that the model
/// got, and without what is internal.
pub open spec fn restored(
    response: JsonView,
    tools: Option<Vec<ResponseTool>>,
    session: Option<&McpToolSession<'_>>,
) -> JsonView {
    let stripped = without_internal_tools(without_internal_output(response, session), session);
    match tools {
        None => stripped,
        Some(list) => {
            let all = tool_values(list@);
            let kept = without_those(all, |t: JsonView| is_internal_tool_value(t, session));
            if kept.len() > 0 {
                let with_tools = stripped.set("tools"@, JsonView::Array(kept));
                if with_tools.get("tool_choice"@) is None {
                    with_tools.set("tool_choice"@, JsonView::Text("auto"@))
                } else {
                    with_tools
                }
            } else if all.len() > 0 {
                stripped.without("tools"@)
            } else {
                stripped
            }
        },
    }
}

/// The tools of a request as the client wrote them.
fn original_tool_values(tools: &Vec<ResponseTool>) -> (values: Vec<Json>)
    ensures
        json_views(values@) == tool_values(tools@),
{
    let mut values: Vec<Json> = Vec::new();
    assert(json_views(values@) =~= Seq::<JsonView>::empty());
    for i in 0..tools.len()
        invariant
            json_views(values@) == tool_values(tools@.take(i as int)),
    {
        proof {
            let next = tools@.take(i + 1);
            assert(next.drop_last() =~= tools@.take(i as int));
            assert(next.last() == tools@[i as int]);
        }
        if let Some(v) = response_tool_to_value(&tools[i]) {
            push_value(&mut values, v);
        }
    }
    assert(tools@.take(tools@.len() as int) =~= tools@);
    values
}

/// Puts the tools of the request in place of those that the model got, and
/// takes out what is internal.
pub fn restore_original_tools(
    resp: &mut Json,
    original_body: &ResponsesRequest,
    session: Option<&McpToolSession<'_>>,
)
    ensures
        final(resp)@ == restored(old(resp)@, original_body.tools, session),
{
    broadcast use group_json_views;

    strip_internal_mcp_output_items(resp, session);
    strip_internal_mcp_tools(resp, session);
    if let Some(tools) = &original_body.tools {
        let all = original_tool_values(tools);
        let kept = keep_public_tools(&all, session);
        assert(json_views(kept@).len() == kept@.len());
        assert(json_views(all@).len() == all@.len());
        if kept.len() > 0 {
            resp.set("tools", Json::Array(kept));
            if !resp.has("tool_choice") {
                resp.set("tool_choice", Json::text("auto"));
            }
        } else if all.len() > 0 {
            let _ = resp.remove("tools");
        }
    }
}

/// A response without what is internal shows nothing internal, neither among the
/// tools nor in the output, and everything else stays.
pub proof fn law_stripped_hides_internal(
    response: JsonView,
    session: Option<&McpToolSession<'_>>,
    x: JsonView,
)
    requires
        response is Object,
    ensures
        ({
            let shown = without_internal_tools(without_internal_output(response, session), session);
            &&& shown is Object
            &&& shown.get_items("tools"@) is Some <==> response.get_items("tools"@) is Some
            &&& shown.get_items("tools"@) matches Some(list) ==> (list.contains(x)
                <==> response.get_items("tools"@)->0.contains(x) && !is_internal_tool_value(
                x,
                session,
            ))
            &&& shown.get_items("output"@) is Some <==> response.get_items("output"@) is Some
            &&& shown.get_items("output"@) matches Some(items) ==> (items.contains(x)
                <==> response.get_items("output"@)->0.contains(x) && !is_internal_output_item(
                x,
                session,
            ))
        }),
{
    reveal_strlit("tools");
    reveal_strlit("output");
    assert("tools"@.len() != "output"@.len());
    let is_tool = |t: JsonView| is_internal_tool_value(t, session);
    let is_item = |t: JsonView| is_internal_output_item(t, session);
    let bare = without_internal_output(response, session);
    if let Some(items) = response.get_items("output"@) {
        let kept = JsonView::Array(without_those(items, is_item));
        law_without_those(items, is_item, x);
        lemma_get_after_set(response, "output"@, kept);
        lemma_set_keeps_others(response, "output"@, kept, "tools"@);
    }
    if let Some(list) = bare.get_items("tools"@) {
        let kept = JsonView::Array(without_those(list, is_tool));
        law_without_those(list, is_tool, x);
        lemma_get_after_set(bare, "tools"@, kept);
        lemma_set_keeps_others(bare, "tools"@, kept, "output"@);
    }
}

/// What is restored shows nothing internal, neither among the tools nor in the
/// output, and everything else in the output stays.
pub proof fn law_restored_hides_internal(
    response: JsonView,
    tools: Option<Vec<ResponseTool>>,
    session: Option<&McpToolSession<'_>>,
    x: JsonView,
)
    requires
        response is Object,
        unique_keys(response->Object_0),
    ensures
        ({
            let shown = restored(response, tools, session);
            &&& shown.get_items("tools"@) matches Some(list) ==> list.contains(x)
                ==> !is_internal_tool_value(x, session)
            &&& shown.get_items("output"@) is Some <==> response.get_items("output"@) is Some
            &&& shown.get_items("output"@) matches Some(items) ==> (items.contains(x)
                <==> response.get_items("output"@)->0.contains(x) && !is_internal_output_item(
                x,
                session,
            ))
        }),
{
    reveal_strlit("tools");
    reveal_strlit("output");
    reveal_strlit("tool_choice");
    assert("tools"@.len() != "output"@.len());
    assert("tools"@.len() != "tool_choice"@.len());
    assert("output"@.len() != "tool_choice"@.len());
    let is_tool = |t: JsonView| is_internal_tool_value(t, session);
    let is_item = |t: JsonView| is_internal_output_item(t, session);
    let bare = without_internal_output(response, session);
    if let Some(items) = response.get_items("output"@) {
        let kept = JsonView::Array(without_those(items, is_item));
        law_without_those(items, is_item, x);
        lemma_get_after_set(response, "output"@, kept);
        lemma_set_keeps_others(response, "output"@, kept, "tools"@);
        lemma_set_keeps_unique(response->Object_0, "output"@, kept);
    }
    let stripped = without_internal_tools(bare, session);
    if let Some(list) = bare.get_items("tools"@) {
        let kept = JsonView::Array(without_those(list, is_tool));
        law_without_those(list, is_tool, x);
        lemma_get_after_set(bare, "tools"@, kept);
        lemma_set_keeps_others(bare, "tools"@, kept, "output"@);
        lemma_set_keeps_unique(bare->Object_0, "tools"@, kept);
    }
    assert(stripped.get_items("output"@) == bare.get_items("output"@));
    if let Some(wanted) = tools {
        let all = tool_values(wanted@);
        let kept = without_those(all, is_tool);
        law_without_those(all, is_tool, x);
        let with_tools = stripped.set("tools"@, JsonView::Array(kept));
        lemma_get_after_set(stripped, "tools"@, JsonView::Array(kept));
        lemma_set_keeps_others(stripped, "tools"@, JsonView::Array(kept), "output"@);
        let auto = JsonView::Text("auto"@);
        lemma_set_keeps_others(with_tools, "tool_choice"@, auto, "tools"@);
        lemma_set_keeps_others(with_tools, "tool_choice"@, auto, "output"@);
        lemma_get_after_without(stripped, "tools"@, "output"@);
    }
}

} // verus!

//! The words that stand in payloads and events, told apart.

use vstd::prelude::*;

verus! {

/// The length of each word, and characters by which words of one length differ.
pub proof fn lemma_words()
    ensures
        "_"@.len() == 1,
        "id"@.len() == 2,
        "ci_"@.len() == 3 && "ci_"@[0] == 'c' && "ci_"@[1] == 'i',
        "fc_"@.len() == 3 && "fc_"@[0] == 'f' && "fc_"@[1] == 'c',
        "fs_"@.len() == 3 && "fs_"@[0] == 'f' && "fs_"@[1] == 's',
        "mcp"@.len() == 3 && "mcp"@[0] == 'm' && "mcp"@[1] == 'c',
        "ws_"@.len() == 3 && "ws_"@[0] == 'w' && "ws_"@[1] == 's',
        "auto"@.len() == 4 && "auto"@[0] == 'a' && "auto"@[1] == 'u',
        "deny"@.len() == 4 && "deny"@[0] == 'd' && "deny"@[1] == 'e',
        "item"@.len() == 4 && "item"@[0] == 'i' && "item"@[1] == 't',
        "mcp_"@.len() == 4 && "mcp_"@[0] == 'm' && "mcp_"@[1] == 'c',
        "name"@.len() == 4 && "name"@[0] == 'n' && "name"@[1] == 'a',
        "role"@.len() == 4 && "role"@[0] == 'r' && "role"@[1] == 'o',
        "text"@.len() == 4 && "text"@[0] == 't' && "text"@[1] == 'e',
        "tool"@.len() == 4 && "tool"@[0] == 't' && "tool"@[1] == 'o',
        "type"@.len() == 4 && "type"@[0] == 't' && "type"@[1] == 'y',
        "user"@.len() == 4 && "user"@[0] == 'u' && "user"@[1] == 's',
        "alias"@.len() == 5 && "alias"@[0] == 'a' && "alias"@[4] == 's',
        "allow"@.len() == 5 && "allow"@[0] == 'a' && "allow"@[4] == 'w',
        "delta"@.len() == 5 && "delta"@[0] == 'd' && "delta"@[4] == 'a',
        "error"@.len() == 5 && "error"@[0] == 'e' && "error"@[4] == 'r',
        "input"@.len() == 5 && "input"@[0] == 'i' && "input"@[4] == 't',
        "model"@.len() == 5 && "model"@[0] == 'm' && "model"@[4] == 'l',
        "store"@.len() == 5 && "store"@[0] == 's' && "store"@[4] == 'e',
        "tool-"@.len() == 5 && "tool-"@[0] == 't' && "tool-"@[4] == '-',
        "tools"@.len() == 5 && "tools"@[0] == 't' && "tools"@[4] == 's',
        "failed"@.len() == 6 && "failed"@[3] == 'l',
        "number"@.len() == 6 && "number"@[3] == 'b',
        "output"@.len() == 6 && "output"@[3] == 'p',
        "reason"@.len() == 6 && "reason"@[3] == 's',
        "status"@.len() == 6 && "status"@[3] == 't',
        "stream"@.len() == 6 && "stream"@[3] == 'e',
        "call_id"@.len() == 7 && "call_id"@[2] == 'l',
        "content"@.len() == 7 && "content"@[2] == 'n',
        "headers"@.len() == 7 && "headers"@[2] == 'a',
        "integer"@.len() == 7 && "integer"@[2] == 't',
        "item_id"@.len() == 7 && "item_id"@[2] == 'e',
        "message"@.len() == 7 && "message"@[2] == 's',
        "unknown"@.len() == 7 && "unknown"@[2] == 'k',
        "function"@.len() == 8 && "function"@[2] == 'n',
        "mcp_call"@.len() == 8 && "mcp_call"@[2] == 'p',
        "metadata"@.len() == 8 && "metadata"@[2] == 't',
        "response"@.len() == 8 && "response"@[2] == 's',
        "arguments"@.len() == 9 && "arguments"@[0] == 'a',
        "completed"@.len() == 9 && "completed"@[0] == 'c',
        "input_text"@.len() == 10 && "input_text"@[0] == 'i',
        "properties"@.len() == 10 && "properties"@[0] == 'p',
        "server_url"@.len() == 10 && "server_url"@[0] == 's',
        "file_search"@.len() == 11 && "file_search"@[0] == 'f',
        "obfuscation"@.len() == 11 && "obfuscation"@[0] == 'o',
        "tool_choice"@.len() == 11 && "tool_choice"@[0] == 't',
        "conversation"@.len() == 12 && "conversation"@[0] == 'c',
        "instructions"@.len() == 12 && "instructions"@[0] == 'i',
        "output_index"@.len() == 12 && "output_index"@[0] == 'o',
        "server_label"@.len() == 12 && "server_label"@[0] == 's',
        "allowed_tools"@.len() == 13 && "allowed_tools"@[2] == 'l',
        "authorization"@.len() == 13 && "authorization"@[2] == 't',
        "function_call"@.len() == 13 && "function_call"@[2] == 'n',
        "mcp_list_tools"@.len() == 14,
        "sequence_number"@.len() == 15 && "sequence_number"@[0] == 's',
        "web_search_call"@.len() == 15 && "web_search_call"@[0] == 'w',
        "code_interpreter"@.len() == 16 && "code_interpreter"@[2] == 'd',
        "deny_with_reason"@.len() == 16 && "deny_with_reason"@[2] == 'n',
        "file_search_call"@.len() == 16 && "file_search_call"@[2] == 'l',
        "require_approval"@.len() == 16 && "require_approval"@[2] == 'q',
        "response.created"@.len() == 16 && "response.created"@[2] == 's',
        "safety_identifier"@.len() == 17,
        "function_tool_call"@.len() == 18 && "function_tool_call"@[0] == 'f',
        "incomplete_details"@.len() == 18 && "incomplete_details"@[0] == 'i',
        "response.completed"@.len() == 18 && "response.completed"@[0] == 'r',
        "server_description"@.len() == 18 && "server_description"@[0] == 's',
        "truncation_warning"@.len() == 18 && "truncation_warning"@[0] == 't',
        "web_search_preview"@.len() == 18 && "web_search_preview"@[0] == 'w',
        "approval_request_id"@.len() == 19,
        "function_call_output"@.len() == 20 && "function_call_output"@[0] == 'f',
        "previous_response_id"@.len() == 20 && "previous_response_id"@[0] == 'p',
        "response.in_progress"@.len() == 20 && "response.in_progress"@[0] == 'r',
        "code_interpreter_call"@.len() == 21,
        "response.output_item.done"@.len() == 25,
        "response.output_item.added"@.len() == 26,
        "response.mcp_call.completed"@.len() == 27,
        "response.mcp_call.in_progress"@.len() == 29,
        "response.mcp_call_arguments.done"@.len() == 32,
        "response.mcp_call_arguments.delta"@.len() == 33 && "response.mcp_call_arguments.delta"@[13] == 'c',
        "response.mcp_list_tools.completed"@.len() == 33 && "response.mcp_list_tools.completed"@[13] == 'l',
        "response.web_search_call.completed"@.len() == 34 && "response.web_search_call.completed"@[25] == 'c',
        "response.web_search_call.searching"@.len() == 34 && "response.web_search_call.searching"@[25] == 's',
        "response.file_search_call.completed"@.len() == 35 && "response.file_search_call.completed"@[26] == 'c',
        "response.file_search_call.searching"@.len() == 35 && "response.file_search_call.searching"@[26] == 's',
        "response.mcp_list_tools.in_progress"@.len() == 35 && "response.mcp_list_tools.in_progress"@[26] == '_',
        "response.web_search_call.in_progress"@.len() == 36,
        "response.file_search_call.in_progress"@.len() == 37 && "response.file_search_call.in_progress"@[10] == 'i',
        "response.function_call_arguments.done"@.len() == 37 && "response.function_call_arguments.done"@[10] == 'u',
        "response.function_call_arguments.delta"@.len() == 38,
        "response.code_interpreter_call.completed"@.len() == 40,
        "response.code_interpreter_call.in_progress"@.len() == 42,
        "response.code_interpreter_call.interpreting"@.len() == 43,
{
    reveal_strlit("_");
    reveal_strlit("id");
    reveal_strlit("ci_");
    reveal_strlit("fc_");
    reveal_strlit("fs_");
    reveal_strlit("mcp");
    reveal_strlit("ws_");
    reveal_strlit("auto");
    reveal_strlit("deny");
    reveal_strlit("item");
    reveal_strlit("mcp_");
    reveal_strlit("name");
    reveal_strlit("role");
    reveal_strlit("text");
    reveal_strlit("tool");
    reveal_strlit("type");
    reveal_strlit("user");
    reveal_strlit("alias");
    reveal_strlit("allow");
    reveal_strlit("delta");
    reveal_strlit("error");
    reveal_strlit("input");
    reveal_strlit("model");
    reveal_strlit("store");
    reveal_strlit("tool-");
    reveal_strlit("tools");
    reveal_strlit("failed");
    reveal_strlit("number");
    reveal_strlit("output");
    reveal_strlit("reason");
    reveal_strlit("status");
    reveal_strlit("stream");
    reveal_strlit("call_id");
    reveal_strlit("content");
    reveal_strlit("headers");
    reveal_strlit("integer");
    reveal_strlit("item_id");
    reveal_strlit("message");
    reveal_strlit("unknown");
    reveal_strlit("function");
    reveal_strlit("mcp_call");
    reveal_strlit("metadata");
    reveal_strlit("response");
    reveal_strlit("arguments");
    reveal_strlit("completed");
    reveal_strlit("input_text");
    reveal_strlit("properties");
    reveal_strlit("server_url");
    reveal_strlit("file_search");
    reveal_strlit("obfuscation");
    reveal_strlit("tool_choice");
    reveal_strlit("conversation");
    reveal_strlit("instructions");
    reveal_strlit("output_index");
    reveal_strlit("server_label");
    reveal_strlit("allowed_tools");
    reveal_strlit("authorization");
    reveal_strlit("function_call");
    reveal_strlit("mcp_list_tools");
    reveal_strlit("sequence_number");
    reveal_strlit("web_search_call");
    reveal_strlit("code_interpreter");
    reveal_strlit("deny_with_reason");
    reveal_strlit("file_search_call");
    reveal_strlit("require_approval");
    reveal_strlit("response.created");
    reveal_strlit("safety_identifier");
    reveal_strlit("function_tool_call");
    reveal_strlit("incomplete_details");
    reveal_strlit("response.completed");
    reveal_strlit("server_description");
    reveal_strlit("truncation_warning");
    reveal_strlit("web_search_preview");
    reveal_strlit("approval_request_id");
    reveal_strlit("function_call_output");
    reveal_strlit("previous_response_id");
    reveal_strlit("response.in_progress");
    reveal_strlit("code_interpreter_call");
    reveal_strlit("response.output_item.done");
    reveal_strlit("response.output_item.added");
    reveal_strlit("response.mcp_call.completed");
    reveal_strlit("response.mcp_call.in_progress");
    reveal_strlit("response.mcp_call_arguments.done");
    reveal_strlit("response.mcp_call_arguments.delta");
    reveal_strlit("response.mcp_list_tools.completed");
    reveal_strlit("response.web_search_call.completed");
    reveal_strlit("response.web_search_call.searching");
    reveal_strlit("response.file_search_call.completed");
    reveal_strlit("response.file_search_call.searching");
    reveal_strlit("response.mcp_list_tools.in_progress");
    reveal_strlit("response.web_search_call.in_progress");
    reveal_strlit("response.file_search_call.in_progress");
    reveal_strlit("response.function_call_arguments.done");
    reveal_strlit("response.function_call_arguments.delta");
    reveal_strlit("response.code_interpreter_call.completed");
    reveal_strlit("response.code_interpreter_call.in_progress");
    reveal_strlit("response.code_interpreter_call.interpreting");
}

} // verus!

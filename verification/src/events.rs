//! Types of events and output items of the Responses API.

use vstd::prelude::*;

use crate::text::text_eq;

verus! {

pub const ITEM_FUNCTION: &'static str = "function";
pub const ITEM_FUNCTION_CALL: &'static str = "function_call";
pub const ITEM_FUNCTION_CALL_OUTPUT: &'static str = "function_call_output";
pub const ITEM_FUNCTION_TOOL_CALL: &'static str = "function_tool_call";
pub const ITEM_MCP_CALL: &'static str = "mcp_call";
pub const ITEM_MCP_LIST_TOOLS: &'static str = "mcp_list_tools";
pub const ITEM_WEB_SEARCH_CALL: &'static str = "web_search_call";
pub const ITEM_CODE_INTERPRETER_CALL: &'static str = "code_interpreter_call";
pub const ITEM_FILE_SEARCH_CALL: &'static str = "file_search_call";

pub const RESPONSE_CREATED: &'static str = "response.created";
pub const RESPONSE_IN_PROGRESS: &'static str = "response.in_progress";
pub const RESPONSE_COMPLETED: &'static str = "response.completed";

pub const OUTPUT_ITEM_ADDED: &'static str = "response.output_item.added";
pub const OUTPUT_ITEM_DONE: &'static str = "response.output_item.done";

pub const FUNCTION_ARGUMENTS_DELTA: &'static str = "response.function_call_arguments.delta";
pub const FUNCTION_ARGUMENTS_DONE: &'static str = "response.function_call_arguments.done";

pub const MCP_ARGUMENTS_DELTA: &'static str = "response.mcp_call_arguments.delta";
pub const MCP_ARGUMENTS_DONE: &'static str = "response.mcp_call_arguments.done";
pub const MCP_CALL_IN_PROGRESS: &'static str = "response.mcp_call.in_progress";
pub const MCP_CALL_COMPLETED: &'static str = "response.mcp_call.completed";
pub const MCP_LIST_TOOLS_IN_PROGRESS: &'static str = "response.mcp_list_tools.in_progress";
pub const MCP_LIST_TOOLS_COMPLETED: &'static str = "response.mcp_list_tools.completed";

pub const WEB_SEARCH_IN_PROGRESS: &'static str = "response.web_search_call.in_progress";
pub const WEB_SEARCH_SEARCHING: &'static str = "response.web_search_call.searching";
pub const WEB_SEARCH_COMPLETED: &'static str = "response.web_search_call.completed";
pub const CODE_INTERPRETER_IN_PROGRESS: &'static str = "response.code_interpreter_call.in_progress";
pub const CODE_INTERPRETER_INTERPRETING: &'static str =
    "response.code_interpreter_call.interpreting";
pub const CODE_INTERPRETER_COMPLETED: &'static str = "response.code_interpreter_call.completed";
pub const FILE_SEARCH_IN_PROGRESS: &'static str = "response.file_search_call.in_progress";
pub const FILE_SEARCH_SEARCHING: &'static str = "response.file_search_call.searching";
pub const FILE_SEARCH_COMPLETED: &'static str = "response.file_search_call.completed";

/// Whether an event carries a whole response.
pub open spec fn is_response_type(event: Seq<char>) -> bool {
    event == RESPONSE_CREATED@ || event == RESPONSE_IN_PROGRESS@ || event == RESPONSE_COMPLETED@
}

/// Whether an event carries a whole response.
pub fn is_response_event(event: &str) -> (r: bool)
    ensures
        r == is_response_type(event@),
{
    text_eq(event, RESPONSE_CREATED) || text_eq(event, RESPONSE_IN_PROGRESS) || text_eq(
        event,
        RESPONSE_COMPLETED,
    )
}

/// Whether an item is a call of a function.
pub open spec fn is_call_type(item: Seq<char>) -> bool {
    item == ITEM_FUNCTION_CALL@ || item == ITEM_FUNCTION_TOOL_CALL@
}

/// Whether an item is a call of a function.
pub fn is_function_call_type(item: &str) -> (r: bool)
    ensures
        r == is_call_type(item@),
{
    text_eq(item, ITEM_FUNCTION_CALL) || text_eq(item, ITEM_FUNCTION_TOOL_CALL)
}

} // verus!

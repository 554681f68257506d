//! What the gateway reads of a client's request.

use vstd::prelude::*;

use crate::json::{json_views, Json, JsonView};

verus! {

/// An MCP server that a client asks for.
#[derive(Debug, PartialEq, Eq)]
pub struct McpTool {
    pub server_label: String,
    pub server_url: Option<String>,
    pub authorization: Option<String>,
    pub headers: Option<Vec<(String, String)>>,
    pub server_description: Option<String>,
    pub require_approval: Option<Json>,
    pub allowed_tools: Option<Vec<String>>,
}

/// A tool that a client asks for. The built-in ones carry the form in which the
/// client wrote them.
#[derive(Debug, PartialEq, Eq)]
pub enum ResponseTool {
    Mcp(McpTool),
    WebSearchPreview(Json),
    CodeInterpreter(Json),
    Function,
}

/// The input of a request: one text of the user, or a list of items.
#[derive(Debug, PartialEq, Eq)]
pub enum ResponseInput {
    Text(String),
    Items(Vec<Json>),
}

/// What a [`ResponseInput`] holds.
pub enum InputView {
    Text(Seq<char>),
    Items(Seq<JsonView>),
}

impl View for ResponseInput {
    type V = InputView;

    open spec fn view(&self) -> InputView {
        match self {
            ResponseInput::Text(s) => InputView::Text(s@),
            ResponseInput::Items(items) => InputView::Items(json_views(items@)),
        }
    }
}

/// A request for a model response.
#[derive(Debug, PartialEq, Eq)]
pub struct ResponsesRequest {
    pub model: String,
    pub input: ResponseInput,
    pub instructions: Option<String>,
    pub metadata: Option<Vec<(String, Json)>>,
    pub store: Option<bool>,
    pub user: Option<String>,
    pub conversation: Option<String>,
    pub max_tool_calls: Option<u32>,
    pub tools: Option<Vec<ResponseTool>>,
}

} // verus!

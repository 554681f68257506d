//! Errors of MCP operations.

use vstd::prelude::*;

verus! {

broadcast use vstd::string::group_string_axioms;

/// Why an MCP operation failed.
#[derive(Debug, PartialEq, Eq)]
pub enum McpError {
    /// The configuration is refused.
    Config(String),
    /// A transport could not be set up.
    Transport(String),
    /// A server did not answer the handshake.
    ConnectionFailed(String),
    /// There is no such tool.
    ToolNotFound(String),
    /// The tool call was not approved.
    ToolDenied(String),
    /// There is no such server.
    ServerNotFound(String),
    /// The connection to a server is gone.
    ServerDisconnected(String),
    /// The server reported a failure.
    ToolExecution(String),
}

/// What an [`McpError`] says.
pub enum ErrorView {
    Config(Seq<char>),
    Transport(Seq<char>),
    ConnectionFailed(Seq<char>),
    ToolNotFound(Seq<char>),
    ToolDenied(Seq<char>),
    ServerNotFound(Seq<char>),
    ServerDisconnected(Seq<char>),
    ToolExecution(Seq<char>),
}

impl View for McpError {
    type V = ErrorView;

    open spec fn view(&self) -> ErrorView {
        match self {
            McpError::Config(s) => ErrorView::Config(s@),
            McpError::Transport(s) => ErrorView::Transport(s@),
            McpError::ConnectionFailed(s) => ErrorView::ConnectionFailed(s@),
            McpError::ToolNotFound(s) => ErrorView::ToolNotFound(s@),
            McpError::ToolDenied(s) => ErrorView::ToolDenied(s@),
            McpError::ServerNotFound(s) => ErrorView::ServerNotFound(s@),
            McpError::ServerDisconnected(s) => ErrorView::ServerDisconnected(s@),
            McpError::ToolExecution(s) => ErrorView::ToolExecution(s@),
        }
    }
}

/// The message of an error.
pub open spec fn error_message(error: ErrorView) -> Seq<char> {
    match error {
        ErrorView::Config(s) => "Configuration error: "@ + s,
        ErrorView::Transport(s) => "Transport error: "@ + s,
        ErrorView::ConnectionFailed(s) => "Connection failed: "@ + s,
        ErrorView::ToolNotFound(s) => "Tool not found: "@ + s,
        ErrorView::ToolDenied(s) => "Tool denied: "@ + s,
        ErrorView::ServerNotFound(s) => "Server not found: "@ + s,
        ErrorView::ServerDisconnected(s) => "Server disconnected: "@ + s,
        ErrorView::ToolExecution(s) => "Tool execution failed: "@ + s,
    }
}

impl McpError {
    /// The message of the error: what failed, and the detail.
    pub fn to_string(&self) -> (text: String)
        ensures
            text@ == error_message(self@),
    {
        let (what, detail) = match self {
            McpError::Config(s) => ("Configuration error: ", s),
            McpError::Transport(s) => ("Transport error: ", s),
            McpError::ConnectionFailed(s) => ("Connection failed: ", s),
            McpError::ToolNotFound(s) => ("Tool not found: ", s),
            McpError::ToolDenied(s) => ("Tool denied: ", s),
            McpError::ServerNotFound(s) => ("Server not found: ", s),
            McpError::ServerDisconnected(s) => ("Server disconnected: ", s),
            McpError::ToolExecution(s) => ("Tool execution failed: ", s),
        };
        let mut text: String = what.to_owned();
        text.append(detail.as_str());
        text
    }
}

impl Clone for McpError {
    fn clone(&self) -> (copy: Self)
        ensures
            copy@ == self@,
    {
        match self {
            McpError::Config(s) => McpError::Config(s.clone()),
            McpError::Transport(s) => McpError::Transport(s.clone()),
            McpError::ConnectionFailed(s) => McpError::ConnectionFailed(s.clone()),
            McpError::ToolNotFound(s) => McpError::ToolNotFound(s.clone()),
            McpError::ToolDenied(s) => McpError::ToolDenied(s.clone()),
            McpError::ServerNotFound(s) => McpError::ServerNotFound(s.clone()),
            McpError::ServerDisconnected(s) => McpError::ServerDisconnected(s.clone()),
            McpError::ToolExecution(s) => McpError::ToolExecution(s.clone()),
        }
    }
}

} // verus!

//! Approval of tool calls: modes, requests and decisions.

use vstd::prelude::*;

use crate::error::{ErrorView, McpError};
use crate::inventory::{
    clone_annotations, opt_annotations, EntryView, ToolAnnotations, ToolEntry,
};

verus! {

broadcast use vstd::string::group_string_axioms;

/// Who decides about a tool call: the user, where the API has a way to ask, or
/// the policy alone.
#[derive(Debug, Clone, Copy, PartialEq, Eq, Structural)]
pub enum ApprovalMode {
    Interactive,
    PolicyOnly,
}

/// A user's decision.
#[derive(Debug, Clone, PartialEq, Eq)]
pub enum ApprovalDecision {
    Approved,
    Denied { reason: String },
}

/// What came of handing a request to the approval manager: the policy decided,
/// or the user is to be asked.
#[derive(Debug, Clone, Copy, PartialEq, Eq, Structural)]
pub enum ApprovalOutcome {
    Decided { allowed: bool },
    Pending,
}

/// The tenant of a request.
#[derive(Debug, Clone, PartialEq, Eq)]
pub struct TenantContext {
    pub tenant_id: String,
}

impl TenantContext {
    /// The context of a tenant.
    pub fn new(tenant_id: &str) -> (r: TenantContext)
        ensures
            r.tenant_id@ == tenant_id@,
    {
        TenantContext { tenant_id: tenant_id.to_owned() }
    }
}

impl Default for TenantContext {
    fn default() -> (r: TenantContext)
        ensures
            r.tenant_id@ == "default"@,
    {
        TenantContext::new("default")
    }
}

/// What the handler of a server connection knows of the request that it serves.
#[derive(Debug, Clone, PartialEq, Eq)]
pub struct HandlerRequestContext {
    pub request_id: String,
    pub approval_mode: ApprovalMode,
    pub tenant_ctx: TenantContext,
}

/// A request for approval of one tool call.
#[derive(Debug, Clone, PartialEq, Eq)]
pub struct McpApprovalRequest {
    pub request_id: String,
    pub server_key: String,
    pub elicitation_id: String,
    pub tool_name: String,
    /// What the server says of how the tool behaves.
    pub hints: Option<ToolAnnotations>,
    pub message: String,
}

/// Whether `request` asks for approval of `entry` on behalf of a request.
pub open spec fn asks_for(request: McpApprovalRequest, request_id: Seq<char>, entry: EntryView) -> bool {
    &&& request.request_id@ == request_id
    &&& request.server_key@ == entry.name.0
    &&& request.elicitation_id@ == "tool-"@ + entry.name.1
    &&& request.tool_name@ == entry.name.1
    &&& opt_annotations(request.hints) == entry.tool.annotations
    &&& request.message@ == "Allow execution of '"@ + entry.name.1 + "'?"@
}

impl McpApprovalRequest {
    /// The request for approval of a call of `entry`.
    pub fn for_entry(request_id: &str, entry: &ToolEntry) -> (r: McpApprovalRequest)
        ensures
            asks_for(r, request_id@, entry@),
    {
        let mut elicitation_id: String = "tool-".to_owned();
        elicitation_id.append(entry.tool_name());
        let mut message: String = "Allow execution of '".to_owned();
        message.append(entry.tool_name());
        message.append("'?");
        McpApprovalRequest {
            request_id: request_id.to_owned(),
            server_key: entry.server_key().to_owned(),
            elicitation_id,
            tool_name: entry.tool_name().to_owned(),
            hints: clone_annotations(&entry.tool.annotations),
            message,
        }
    }
}

/// What happens next with a call that was handed to the approval manager.
#[derive(Debug, Clone, PartialEq, Eq)]
pub enum ApprovalStep {
    /// The tool is called.
    Execute,
    /// The call is refused.
    Refuse(McpError),
    /// The client is told that approval is pending.
    ReportPending,
    /// The decision is waited for.
    AwaitDecision,
}

/// What an [`ApprovalStep`] says.
pub enum StepView {
    Execute,
    Refuse(ErrorView),
    ReportPending,
    AwaitDecision,
}

impl View for ApprovalStep {
    type V = StepView;

    open spec fn view(&self) -> StepView {
        match self {
            ApprovalStep::Execute => StepView::Execute,
            ApprovalStep::Refuse(e) => StepView::Refuse(e@),
            ApprovalStep::ReportPending => StepView::ReportPending,
            ApprovalStep::AwaitDecision => StepView::AwaitDecision,
        }
    }
}

/// What follows on the approval manager's answer.
pub open spec fn step_after_outcome(
    tool: Seq<char>,
    mode: ApprovalMode,
    outcome: ApprovalOutcome,
) -> StepView {
    match outcome {
        ApprovalOutcome::Decided { allowed } => if allowed {
            StepView::Execute
        } else {
            StepView::Refuse(ErrorView::ToolDenied(tool))
        },
        ApprovalOutcome::Pending => if mode == ApprovalMode::Interactive {
            StepView::ReportPending
        } else {
            StepView::AwaitDecision
        },
    }
}

/// What follows on the approval manager's answer for a call of `entry`.
pub fn after_outcome(entry: &ToolEntry, mode: ApprovalMode, outcome: ApprovalOutcome) -> (step:
    ApprovalStep)
    ensures
        step@ == step_after_outcome(entry@.name.1, mode, outcome),
{
    match outcome {
        ApprovalOutcome::Decided { allowed } => if allowed {
            ApprovalStep::Execute
        } else {
            ApprovalStep::Refuse(McpError::ToolDenied(entry.tool_name().to_owned()))
        },
        ApprovalOutcome::Pending => if mode == ApprovalMode::Interactive {
            ApprovalStep::ReportPending
        } else {
            ApprovalStep::AwaitDecision
        },
    }
}

/// The step of a decision that was waited for.
pub open spec fn decision_step(decision: Option<ApprovalDecision>) -> StepView {
    match decision {
        Some(ApprovalDecision::Approved) => StepView::Execute,
        Some(ApprovalDecision::Denied { reason }) => StepView::Refuse(
            ErrorView::ToolDenied(reason@),
        ),
        None => StepView::Refuse(ErrorView::ToolDenied("Channel closed"@)),
    }
}

/// What follows on a decision that was waited for; `None` where the one who was
/// to decide is gone.
pub fn after_decision(decision: Option<ApprovalDecision>) -> (step: ApprovalStep)
    ensures
        step@ == decision_step(decision),
{
    match decision {
        Some(ApprovalDecision::Approved) => ApprovalStep::Execute,
        Some(ApprovalDecision::Denied { reason }) => ApprovalStep::Refuse(
            McpError::ToolDenied(reason),
        ),
        None => ApprovalStep::Refuse(McpError::ToolDenied("Channel closed".to_owned())),
    }
}

/// No call is executed unless the policy allowed it or the user approved it.
pub proof fn law_execution_needs_approval(
    tool: Seq<char>,
    mode: ApprovalMode,
    outcome: ApprovalOutcome,
)
    ensures
        step_after_outcome(tool, mode, outcome) is Execute <==> outcome == (
        ApprovalOutcome::Decided { allowed: true }),
        step_after_outcome(tool, mode, outcome) is AwaitDecision ==> mode
            == ApprovalMode::PolicyOnly,
{
}

} // verus!

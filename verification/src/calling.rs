//! The course of a tool call: approval, the call, and recovery from a lost
//! connection.

use vstd::prelude::*;

use crate::approval::{
    after_decision, after_outcome, decision_step, step_after_outcome, ApprovalDecision,
    ApprovalMode, ApprovalOutcome, ApprovalStep, StepView,
};
use crate::config::McpServerConfig;
use crate::error::{ErrorView, McpError};
use crate::inventory::ToolEntry;
use crate::orchestrator::{config_index, McpOrchestrator, ReconnectStep};

verus! {

broadcast use vstd::string::group_string_axioms;

/// The attempts to connect a server anew.
pub const RECONNECT_ATTEMPTS: u32 = 3;

/// The milliseconds to wait after so many attempts; `None` where no further one is
/// made.
pub open spec fn delay_after(attempt: nat) -> Option<u64> {
    if attempt == 1 {
        Some(500)
    } else if attempt == 2 {
        Some(1000)
    } else {
        None
    }
}

/// The milliseconds to wait after the given attempt to connect a server anew
/// has failed, counted from one: twice as long after each. `None` where no
/// further attempt is made.
pub fn reconnect_delay(attempt: u32) -> (ms: Option<u64>)
    ensures
        ms == delay_after(attempt as nat),
        ms == (if 1 <= attempt < RECONNECT_ATTEMPTS {
            Some(
                if attempt == 1 {
                    500u64
                } else {
                    1000
                },
            )
        } else {
            None
        }),
{
    if attempt == 1 {
        Some(500)
    } else if attempt == 2 {
        Some(1000)
    } else {
        None
    }
}

/// How far a call is.
#[derive(Debug, Clone, Copy, PartialEq, Eq, Structural)]
pub enum CallPhase {
    /// The approval manager was asked.
    Asked,
    /// The decision is waited for.
    Waiting,
    /// The tool is being called. `client` is the client of its server when the
    /// first call was made; `again` tells the second call from the first.
    Calling { client: Option<u64>, again: bool },
    /// The server is being connected anew.
    Reconnecting,
    /// The call is over.
    Over,
}

/// What happens to a call.
pub enum CallEvent {
    /// The approval manager answered.
    Approval(Result<ApprovalOutcome, McpError>),
    /// The decision came; `None` where the one who was to decide is gone.
    Decision(Option<ApprovalDecision>),
    /// The server answered, or the call failed.
    Returned(Result<(), McpError>),
    /// The server was connected anew, or could not be.
    Reconnected(Result<(), McpError>),
}

/// What is done next for a call.
pub enum CallAction<'a> {
    /// The decision is waited for.
    AwaitDecision,
    /// The tool is called.
    Call,
    /// This server is connected anew.
    Reconnect(&'a McpServerConfig),
    /// The answer of the server is the result.
    Answer,
    /// The client is told that approval is pending.
    ReportPending,
    /// The call has failed.
    Fail(McpError),
}

/// What a [`CallAction`] says.
pub enum ActionView {
    AwaitDecision,
    Call,
    Reconnect(McpServerConfig),
    Answer,
    ReportPending,
    Fail(ErrorView),
}

impl<'a> View for CallAction<'a> {
    type V = ActionView;

    open spec fn view(&self) -> ActionView {
        match self {
            CallAction::AwaitDecision => ActionView::AwaitDecision,
            CallAction::Call => ActionView::Call,
            CallAction::Reconnect(config) => ActionView::Reconnect(**config),
            CallAction::Answer => ActionView::Answer,
            CallAction::ReportPending => ActionView::ReportPending,
            CallAction::Fail(e) => ActionView::Fail(e@),
        }
    }
}

/// What is known when a call makes a step.
pub struct Surroundings {
    /// The qualified name of the tool.
    pub name: (Seq<char>, Seq<char>),
    /// Who decides about the call.
    pub mode: ApprovalMode,
    /// The clients of the configured servers.
    pub clients: Map<Seq<char>, u64>,
    /// The configured servers.
    pub servers: Seq<McpServerConfig>,
}

impl Surroundings {
    /// The client of a configured server.
    pub open spec fn client_of(self, server: Seq<char>) -> Option<u64> {
        if self.clients.contains_key(server) {
            Some(self.clients[server])
        } else {
            None
        }
    }
}

/// Whether an event can happen in a phase.
pub open spec fn fits(phase: CallPhase, event: CallEvent) -> bool {
    match event {
        CallEvent::Approval(_) => phase is Asked,
        CallEvent::Decision(_) => phase is Waiting,
        CallEvent::Returned(_) => phase is Calling,
        CallEvent::Reconnected(_) => phase is Reconnecting,
    }
}

/// What follows on a step of the approval.
pub open spec fn after_approval(step: StepView, at: Surroundings) -> (CallPhase, ActionView) {
    match step {
        StepView::Execute => (
            CallPhase::Calling { client: at.client_of(at.name.0), again: false },
            ActionView::Call,
        ),
        StepView::Refuse(e) => (CallPhase::Over, ActionView::Fail(e)),
        StepView::ReportPending => (CallPhase::Over, ActionView::ReportPending),
        StepView::AwaitDecision => (CallPhase::Waiting, ActionView::AwaitDecision),
    }
}

/// What follows on a first call that failed: only a lost connection is recovered
/// from. Where another client took the place of the one that failed, the call is
/// made again with it; else the server is connected anew.
pub open spec fn after_failure(client: Option<u64>, error: ErrorView, at: Surroundings) -> (
    CallPhase,
    ActionView,
) {
    match error {
        ErrorView::ServerDisconnected(name) => {
            let index = config_index(at.servers, name, 0);
            if at.client_of(name) is Some && at.client_of(name) != client {
                (CallPhase::Calling { client, again: true }, ActionView::Call)
            } else if index < at.servers.len() {
                (CallPhase::Reconnecting, ActionView::Reconnect(at.servers[index]))
            } else {
                (CallPhase::Over, ActionView::Fail(ErrorView::ServerNotFound(name)))
            }
        },
        _ => (CallPhase::Over, ActionView::Fail(error)),
    }
}

/// The next phase of a call, and what is done.
pub open spec fn next_step(phase: CallPhase, event: CallEvent, at: Surroundings) -> (
    CallPhase,
    ActionView,
) {
    match event {
        CallEvent::Approval(Ok(outcome)) => after_approval(
            step_after_outcome(at.name.1, at.mode, outcome),
            at,
        ),
        CallEvent::Approval(Err(e)) => (CallPhase::Over, ActionView::Fail(e@)),
        CallEvent::Decision(decision) => after_approval(decision_step(decision), at),
        CallEvent::Returned(Ok(_)) => (CallPhase::Over, ActionView::Answer),
        CallEvent::Returned(Err(e)) => match phase {
            CallPhase::Calling { client, again: false } => after_failure(client, e@, at),
            _ => (CallPhase::Over, ActionView::Fail(e@)),
        },
        CallEvent::Reconnected(Ok(_)) => (
            CallPhase::Calling { client: None, again: true },
            ActionView::Call,
        ),
        CallEvent::Reconnected(Err(e)) => (CallPhase::Over, ActionView::Fail(e@)),
    }
}

/// A call of a tool.
pub struct ToolCall {
    pub entry: ToolEntry,
    pub mode: ApprovalMode,
    pub phase: CallPhase,
}

impl ToolCall {
    /// What is known of the call, with the orchestrator as it is now.
    pub open spec fn surroundings(self, orchestrator: McpOrchestrator) -> Surroundings {
        Surroundings {
            name: self.entry@.name,
            mode: self.mode,
            clients: orchestrator@.clients,
            servers: orchestrator.config.servers@,
        }
    }

    /// A call about which the approval manager is asked first.
    pub fn new(entry: ToolEntry, mode: ApprovalMode) -> (r: ToolCall)
        ensures
            r.entry == entry,
            r.mode == mode,
            r.phase == CallPhase::Asked,
    {
        ToolCall { entry, mode, phase: CallPhase::Asked }
    }

    /// Takes in a step of the approval.
    fn approve<'a>(&mut self, step: ApprovalStep, orchestrator: &'a McpOrchestrator) -> (action:
        CallAction<'a>)
        ensures
            final(self).entry == old(self).entry,
            final(self).mode == old(self).mode,
            (final(self).phase, action@) == after_approval(
                step@,
                old(self).surroundings(*orchestrator),
            ),
    {
        match step {
            ApprovalStep::Execute => {
                let client = orchestrator.static_clients.get(self.entry.server_key());
                self.phase = CallPhase::Calling { client, again: false };
                CallAction::Call
            },
            ApprovalStep::Refuse(e) => {
                self.phase = CallPhase::Over;
                CallAction::Fail(e)
            },
            ApprovalStep::ReportPending => {
                self.phase = CallPhase::Over;
                CallAction::ReportPending
            },
            ApprovalStep::AwaitDecision => {
                self.phase = CallPhase::Waiting;
                CallAction::AwaitDecision
            },
        }
    }

    /// Takes in that a call failed.
    fn fail<'a>(&mut self, error: McpError, orchestrator: &'a McpOrchestrator) -> (action:
        CallAction<'a>)
        ensures
            final(self).entry == old(self).entry,
            final(self).mode == old(self).mode,
            (final(self).phase, action@) == (match old(self).phase {
                CallPhase::Calling { client, again: false } => after_failure(
                    client,
                    error@,
                    old(self).surroundings(*orchestrator),
                ),
                _ => (CallPhase::Over, ActionView::Fail(error@)),
            }),
    {
        match self.phase {
            CallPhase::Calling { client, again: false } => match orchestrator.after_call_failure(
                client,
                error,
            ) {
                ReconnectStep::Retry => {
                    self.phase = CallPhase::Calling { client, again: true };
                    CallAction::Call
                },
                ReconnectStep::Reconnect(config) => {
                    self.phase = CallPhase::Reconnecting;
                    CallAction::Reconnect(config)
                },
                ReconnectStep::Fail(e) => {
                    self.phase = CallPhase::Over;
                    CallAction::Fail(e)
                },
            },
            _ => {
                self.phase = CallPhase::Over;
                CallAction::Fail(error)
            },
        }
    }

    /// Takes in an event and says what is done next.
    pub fn step<'a>(&mut self, event: CallEvent, orchestrator: &'a McpOrchestrator) -> (action:
        CallAction<'a>)
        requires
            fits(old(self).phase, event),
        ensures
            final(self).entry == old(self).entry,
            final(self).mode == old(self).mode,
            (final(self).phase, action@) == next_step(
                old(self).phase,
                event,
                old(self).surroundings(*orchestrator),
            ),
    {
        match event {
            CallEvent::Approval(Ok(outcome)) => {
                let step = after_outcome(&self.entry, self.mode, outcome);
                self.approve(step, orchestrator)
            },
            CallEvent::Decision(decision) => {
                let step = after_decision(decision);
                self.approve(step, orchestrator)
            },
            CallEvent::Returned(Ok(_)) => {
                self.phase = CallPhase::Over;
                CallAction::Answer
            },
            CallEvent::Returned(Err(e)) => self.fail(e, orchestrator),
            CallEvent::Reconnected(Ok(_)) => {
                self.phase = CallPhase::Calling { client: None, again: true };
                CallAction::Call
            },
            CallEvent::Approval(Err(e)) | CallEvent::Reconnected(Err(e)) => {
                self.phase = CallPhase::Over;
                CallAction::Fail(e)
            },
        }
    }
}

/// How often the tool may still be called from a phase on.
pub open spec fn calls_left(phase: CallPhase) -> nat {
    match phase {
        CallPhase::Asked => 2,
        CallPhase::Waiting => 2,
        CallPhase::Calling { client, again } => if again {
            0
        } else {
            1
        },
        CallPhase::Reconnecting => 1,
        CallPhase::Over => 0,
    }
}

/// A tool is called at most twice: every call uses up one of two, and nothing
/// gives one back.
pub proof fn law_at_most_two_calls(phase: CallPhase, event: CallEvent, at: Surroundings)
    requires
        fits(phase, event),
    ensures
        calls_left(phase) <= 2,
        calls_left(next_step(phase, event, at).0) <= calls_left(phase),
        next_step(phase, event, at).1 is Call ==> calls_left(next_step(phase, event, at).0)
            < calls_left(phase),
{
}

/// A tool is first called only after the policy allowed it or the user approved
/// it.
pub proof fn law_first_call_is_approved(phase: CallPhase, event: CallEvent, at: Surroundings)
    requires
        fits(phase, event),
        phase is Asked || phase is Waiting,
    ensures
        next_step(phase, event, at).1 is Call <==> match event {
            CallEvent::Approval(Ok(outcome)) => outcome == (ApprovalOutcome::Decided {
                allowed: true,
            }),
            CallEvent::Decision(decision) => decision == Some(ApprovalDecision::Approved),
            _ => false,
        },
{
}

/// The second call is made only after the first one lost its connection, and
/// then goes to another client or to a server that was connected anew.
pub proof fn law_second_call_follows_a_lost_connection(
    client: Option<u64>,
    error: ErrorView,
    at: Surroundings,
)
    ensures
        ({
            let next = after_failure(client, error, at);
            next.1 is Call || next.1 is Reconnect ==> match error {
                ErrorView::ServerDisconnected(name) => {
                    &&& next.1 is Call ==> at.client_of(name) != client
                    &&& next.1 matches ActionView::Reconnect(config) ==> config.name@ == name
                },
                _ => false,
            }
        }),
{
    if let ErrorView::ServerDisconnected(name) = error {
        lemma_config_index(at.servers, name, 0);
    }
}

proof fn lemma_config_index(servers: Seq<McpServerConfig>, name: Seq<char>, from: int)
    requires
        0 <= from,
    ensures
        config_index(servers, name, from) < servers.len() ==> servers[config_index(
            servers,
            name,
            from,
        )].name@ == name,
    decreases servers.len() - from,
{
    if from < servers.len() && servers[from].name@ != name {
        lemma_config_index(servers, name, from + 1);
    }
}

} // verus!

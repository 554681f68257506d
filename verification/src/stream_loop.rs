//! Streams: the state of a streamed request over all responses of the model.

use vstd::prelude::*;

use crate::events::{RESPONSE_CREATED, RESPONSE_IN_PROGRESS};
use crate::json::{json_views, opt_json, Json, JsonView};
use crate::mcp_utils::DEFAULT_MAX_ITERATIONS;
use crate::patch::{
    patch_response_with_request_metadata, patched, rewrite_streaming_block, rewritten_block,
    wants_store,
};
use crate::request::{InputView, ResponseInput, ResponsesRequest};
use crate::session::McpToolSession;
use crate::sse::event_text;
use crate::streaming::{
    error_event, error_payload, forward_streaming_event, list_tools_texts, listing, sent_for,
    SseEventData, StreamingEventContext, StreamingToolHandler, SSE_DONE,
};
use crate::text::{clone_opt, opt_view, views};
use crate::tool_loop::{
    build_resume_payload, call_item, call_limit, call_output_item,
    finish_streamed_call, resume_payload, shown_completion, FunctionCallInProgress, ToolLoop,
    ToolLoopState,
};
use crate::wire::{parse, text_of_json};

verus! {

broadcast use vstd::string::group_string_axioms;

// ---------------------------------------------------------------------------
// The head of an answer
// ---------------------------------------------------------------------------

/// The type of a body of events.
pub const EVENT_STREAM_TYPE: &'static str = "text/event-stream";

/// How a plain stream is answered. `recorded` is the outcome that the worker is
/// told of.
#[derive(Debug, PartialEq, Eq)]
pub enum StreamHead {
    /// The model was not reached: the client gets this message.
    Unreached { status: u16, recorded: u16, message: String },
    /// The model refused: the client gets the body of its answer.
    Refused { status: u16, recorded: u16 },
    /// The events of the model follow.
    Events { status: u16, recorded: u16 },
}

/// A status as the client gets it: one that is none becomes an internal error.
pub open spec fn client_status(status: u16) -> u16 {
    if 100 <= status < 1000 {
        status
    } else {
        500
    }
}

/// Whether `head` answers a request to the model that ended with a status, or
/// could not be sent for the given reason.
pub open spec fn is_head(head: StreamHead, sent: Result<u16, Seq<char>>) -> bool {
    match sent {
        Err(reason) => head matches StreamHead::Unreached { status, recorded, message } && status
            == 502 && recorded == 502 && message@ == "Failed to forward request to OpenAI: "@
            + reason,
        Ok(code) => if 200 <= code < 300 {
            head == (StreamHead::Events { status: client_status(code), recorded: code })
        } else {
            head == (StreamHead::Refused { status: client_status(code), recorded: code })
        },
    }
}

impl StreamHead {
    /// How a plain stream is answered, by the status of the model's answer, or by
    /// why the model was not reached.
    pub fn of(sent: Result<u16, String>) -> (head: StreamHead)
        ensures
            is_head(
                head,
                match sent {
                    Ok(code) => Ok(code),
                    Err(reason) => Err(reason@),
                },
            ),
    {
        match sent {
            Err(reason) => {
                let mut message: String = "Failed to forward request to OpenAI: ".to_owned();
                message.append(reason.as_str());
                StreamHead::Unreached { status: 502, recorded: 502, message }
            },
            Ok(code) => {
                let status: u16 = if 100 <= code && code < 1000 {
                    code
                } else {
                    500
                };
                if 200 <= code && code < 300 {
                    StreamHead::Events { status, recorded: code }
                } else {
                    StreamHead::Refused { status, recorded: code }
                }
            },
        }
    }
}

/// What the client gets of a refusal.
pub open spec fn refusal_text(read: Result<Seq<char>, Seq<char>>) -> Seq<char> {
    match read {
        Ok(text) => text,
        Err(reason) => "Failed to read upstream error body: "@ + reason,
    }
}

/// The body of a refusal: that of the model's answer, or why it could not be
/// read.
pub fn refusal_body(read: Result<String, String>) -> (body: String)
    ensures
        body@ == refusal_text(
            match read {
                Ok(text) => Ok(text@),
                Err(reason) => Err(reason@),
            },
        ),
        body@ == (match read {
            Ok(text) => text@,
            Err(reason) => "Failed to read upstream error body: "@ + reason@,
        }),
{
    match read {
        Ok(text) => text,
        Err(reason) => {
            let mut body: String = "Failed to read upstream error body: ".to_owned();
            body.append(reason.as_str());
            body
        },
    }
}

/// The type of the body that an answer is given, where the model's answer
/// brought none along.
pub fn added_content_type(has_content_type: bool) -> (r: Option<&'static str>)
    ensures
        match r {
            Some(t) => !has_content_type && t@ == EVENT_STREAM_TYPE@,
            None => has_content_type,
        },
{
    if has_content_type {
        None
    } else {
        Some(EVENT_STREAM_TYPE)
    }
}

/// Why a stream ends early.
#[derive(Debug, PartialEq, Eq)]
pub enum StreamFailure {
    /// The model could not be asked; the message of the error.
    Request(String),
    /// The model refused the request.
    Upstream { status: String, body: String },
    /// The model's stream broke off; the message of the error.
    Broken(String),
    /// More calls were asked for than are made.
    LimitReached,
    /// The conversation cannot go on; why.
    NoResume(String),
}

impl StreamFailure {
    /// What the client is told.
    pub open spec fn message(self) -> Seq<char> {
        match self {
            StreamFailure::Request(e) => e@,
            StreamFailure::Upstream { status, body } => "Upstream error "@ + status@ + ": "@
                + body@,
            StreamFailure::Broken(e) => "Stream error: "@ + e@,
            StreamFailure::LimitReached => "Exceeded max_tool_calls limit"@,
            StreamFailure::NoResume(e) => "Failed to build resume payload: "@ + e@,
        }
    }

    /// Whether the stream is ended in form: it is where the gateway itself ends
    /// it.
    pub open spec fn ends_in_form(self) -> bool {
        self is LimitReached || self is NoResume
    }

    /// What the client gets, in order: the error, and the end of the stream where it
    /// is ended in form.
    pub open spec fn told(self) -> Seq<Seq<char>> {
        let error = event_text("error"@, error_payload(self.message()));
        if self.ends_in_form() {
            seq![error, SSE_DONE@]
        } else {
            seq![error]
        }
    }

    /// What is sent to the client, in order.
    pub fn texts(&self) -> (texts: Vec<String>)
        ensures
            views(texts@) == self.told(),
            views(texts@) == if self.ends_in_form() {
                seq![event_text("error"@, error_payload(self.message())), SSE_DONE@]
            } else {
                seq![event_text("error"@, error_payload(self.message()))]
            },
    {
        let mut message: String = "".to_owned();
        assert(message@ =~= Seq::<char>::empty()) by {
            reveal_strlit("");
        }
        let ends: bool = match self {
            StreamFailure::Request(e) => {
                message.append(e.as_str());
                assert(message@ =~= e@);
                false
            },
            StreamFailure::Upstream { status, body } => {
                message.append("Upstream error ");
                message.append(status.as_str());
                message.append(": ");
                message.append(body.as_str());
                assert(message@ =~= self.message());
                false
            },
            StreamFailure::Broken(e) => {
                message.append("Stream error: ");
                message.append(e.as_str());
                assert(message@ =~= self.message());
                false
            },
            StreamFailure::LimitReached => {
                message.append("Exceeded max_tool_calls limit");
                assert(message@ =~= self.message());
                true
            },
            StreamFailure::NoResume(e) => {
                message.append("Failed to build resume payload: ");
                message.append(e.as_str());
                assert(message@ =~= self.message());
                true
            },
        };
        let mut texts: Vec<String> = Vec::new();
        let event = error_event(message.as_str());
        let ghost shown = event@;
        texts.push(event);
        if ends {
            texts.push(SSE_DONE.to_owned());
            assert(views(texts@) =~= seq![shown, SSE_DONE@]);
        } else {
            assert(views(texts@) =~= seq![shown]);
        }
        texts
    }
}

// ---------------------------------------------------------------------------
// Plain streams
// ---------------------------------------------------------------------------

/// What is sent for a block of a stream without tools: the block with its
/// response completed, or as it came.
pub open spec fn passed_block(
    block: Seq<char>,
    body: ResponsesRequest,
    previous: Option<Seq<char>>,
) -> Seq<char> {
    match rewritten_block(block, body, previous) {
        Some(b) => b,
        None => block,
    }
}

/// A stream without tools.
#[derive(Debug, Clone, Copy, PartialEq, Eq, Structural)]
pub struct Passthrough {
    /// Whether the response is stored.
    pub should_store: bool,
    /// Whether the client is still there.
    pub receiver_connected: bool,
    /// Whether the model's stream broke off.
    pub upstream_failed: bool,
}

/// What is done with a block of a stream without tools.
#[derive(Debug, PartialEq, Eq)]
pub struct BlockPlan {
    /// What is kept for storage.
    pub store: Option<String>,
    /// What is sent to the client.
    pub send: Option<String>,
}

impl Passthrough {
    /// What is kept for storage and what is sent to the client of a block.
    pub open spec fn passes(
        self,
        block: Seq<char>,
        body: ResponsesRequest,
        previous: Option<Seq<char>>,
    ) -> (Option<Seq<char>>, Option<Seq<char>>) {
        let passed = passed_block(block, body, previous);
        (
            if self.should_store {
                Some(passed)
            } else {
                None
            },
            if self.receiver_connected {
                Some(passed + "\n\n"@)
            } else {
                None
            },
        )
    }

    /// Whether the model's stream is still wanted.
    pub open spec fn is_wanted(self) -> bool {
        !self.upstream_failed && (self.receiver_connected || self.should_store)
    }

    /// The response that is stored at the end.
    pub open spec fn stored(
        self,
        response: Option<JsonView>,
        body: ResponsesRequest,
        previous: Option<Seq<char>>,
    ) -> Option<JsonView> {
        match response {
            Some(v) => if self.should_store && !self.upstream_failed {
                Some(patched(v, body, previous))
            } else {
                None
            },
            None => None,
        }
    }

    /// Whether this is the start of a stream for a request.
    pub open spec fn is_start(self, body: ResponsesRequest) -> bool {
        self.should_store == wants_store(body) && self.receiver_connected && !self.upstream_failed
    }

    /// The state at the start of a stream.
    pub fn new(body: &ResponsesRequest) -> (r: Passthrough)
        ensures
            r.is_start(*body),
            r == (Passthrough {
                should_store: wants_store(*body),
                receiver_connected: true,
                upstream_failed: false,
            }),
    {
        let should_store: bool = match body.store {
            Some(s) => s,
            None => true,
        };
        Passthrough { should_store, receiver_connected: true, upstream_failed: false }
    }

    /// What is done with a block: it is kept where the response is stored, and
    /// sent, with an empty line behind it, where the client is still there.
    pub fn on_block(
        &self,
        raw_block: &str,
        body: &ResponsesRequest,
        previous_response_id: Option<&str>,
    ) -> (plan: BlockPlan)
        ensures
            (opt_view(plan.store), opt_view(plan.send)) == self.passes(
                raw_block@,
                *body,
                match previous_response_id {
                    Some(p) => Some(p@),
                    None => None,
                },
            ),
            ({
                let block = passed_block(
                    raw_block@,
                    *body,
                    match previous_response_id {
                        Some(p) => Some(p@),
                        None => None,
                    },
                );
                &&& opt_view(plan.store) == (if self.should_store {
                    Some(block)
                } else {
                    None
                })
                &&& opt_view(plan.send) == (if self.receiver_connected {
                    Some(block + "\n\n"@)
                } else {
                    None
                })
            }),
    {
        let block = match rewrite_streaming_block(raw_block, body, previous_response_id) {
            Some(b) => b,
            None => raw_block.to_owned(),
        };
        let send: Option<String> = if self.receiver_connected {
            let mut chunk: String = block.clone();
            chunk.append("\n\n");
            Some(chunk)
        } else {
            None
        };
        let store: Option<String> = if self.should_store {
            Some(block)
        } else {
            None
        };
        BlockPlan { store, send }
    }

    /// Takes in that the client is gone.
    pub fn on_disconnect(&mut self)
        ensures
            *final(self) == (Passthrough { receiver_connected: false, ..*old(self) }),
    {
        self.receiver_connected = false;
    }

    /// Takes in that the model's stream broke off.
    pub fn on_upstream_error(&mut self)
        ensures
            *final(self) == (Passthrough { upstream_failed: true, ..*old(self) }),
    {
        self.upstream_failed = true;
    }

    /// Whether the model's stream is read on: it is while it is whole and
    /// someone wants it.
    pub fn keeps_reading(&self) -> (r: bool)
        ensures
            r == (!self.upstream_failed && (self.receiver_connected || self.should_store)),
            r == self.is_wanted(),
    {
        !self.upstream_failed && (self.receiver_connected || self.should_store)
    }

    /// The response to store at the end of the stream, if there is one.
    pub fn finish(
        &self,
        response: Option<Json>,
        body: &ResponsesRequest,
        previous_response_id: Option<&str>,
    ) -> (r: Option<Json>)
        ensures
            opt_json(r) == self.stored(
                opt_json(response),
                *body,
                match previous_response_id {
                    Some(p) => Some(p@),
                    None => None,
                },
            ),
            match response {
                Some(v) => if self.should_store && !self.upstream_failed {
                    r matches Some(w) && w@ == patched(
                        v@,
                        *body,
                        match previous_response_id {
                            Some(p) => Some(p@),
                            None => None,
                        },
                    )
                } else {
                    r is None
                },
                None => r is None,
            },
    {
        if !self.should_store || self.upstream_failed {
            return None;
        }
        match response {
            Some(mut v) => {
                patch_response_with_request_metadata(&mut v, body, previous_response_id);
                Some(v)
            },
            None => None,
        }
    }
}

// ---------------------------------------------------------------------------
// Streams with tools
// ---------------------------------------------------------------------------

/// State of a stream with tools, over all responses of the model.
pub struct StreamLoop {
    pub state: ToolLoopState,
    pub base_payload: Json,
    pub tools_json: Json,
    pub limit: usize,
    pub is_first_iteration: bool,
    pub mcp_list_tools_sent: bool,
    pub seen_in_progress: bool,
    pub next_output_index: usize,
    pub preserved_response_id: Option<String>,
}

/// What is done with an event that the handler lets through.
#[derive(Debug, Clone, Copy, PartialEq, Eq, Structural)]
pub struct ForwardPlan {
    /// Whether the event is forwarded.
    pub forward: bool,
    /// Whether the tools are listed behind it.
    pub list_tools: bool,
}

/// Whether the handler of a response lets an event through.
#[derive(Debug, Clone, Copy, PartialEq, Eq, Structural)]
pub enum StreamAction {
    /// It goes to the client.
    Forward,
    /// It is held back.
    Buffer,
    /// It goes to the client, and the calls of the response are made.
    ExecuteTools,
}

/// What follows on a response of the model.
#[derive(Debug, Clone, Copy, PartialEq, Eq, Structural)]
pub enum ResponseEnd {
    /// It was the last one.
    Finish,
    /// Its calls are made.
    MakeCalls,
    /// It asks for more calls than are made.
    LimitReached,
}

/// Whether the data of an event has the given type.
pub open spec fn has_type(parsed: Option<JsonView>, t: Seq<char>) -> bool {
    match parsed {
        Some(v) => v.get_text("type"@) == Some(t),
        None => false,
    }
}

/// Whether the data of an event has the given type.
fn data_has_type(parsed: &Option<Json>, t: &str) -> (r: bool)
    ensures
        r == has_type(opt_json(*parsed), t@),
{
    match parsed {
        Some(v) => v.text_is("type", t),
        None => false,
    }
}

impl StreamLoop {
    /// What stays as it is while a response is received.
    pub open spec fn same_conversation(self, other: StreamLoop) -> bool {
        &&& self.state == other.state
        &&& self.base_payload == other.base_payload
        &&& self.tools_json == other.tools_json
        &&& self.limit == other.limit
    }

    /// What always holds of a stream: no more calls than the limit are made, and
    /// only so many are recorded.
    pub open spec fn wf(self) -> bool {
        &&& self.state.wf()
        &&& self.limit <= DEFAULT_MAX_ITERATIONS
        &&& self.state.total_calls <= self.limit
        &&& self.state.items().len() <= self.state.total_calls
    }

    /// What is done with an event with the given data: the beginning of later
    /// responses is not shown again, and the tools are listed once, when the
    /// first response is in progress.
    pub open spec fn plan_for(self, data: Option<JsonView>) -> ForwardPlan {
        let begins = has_type(data, RESPONSE_CREATED@) || has_type(data, RESPONSE_IN_PROGRESS@);
        ForwardPlan {
            forward: self.is_first_iteration || !begins,
            list_tools: !self.seen_in_progress && !self.mcp_list_tools_sent && has_type(
                data,
                RESPONSE_IN_PROGRESS@,
            ),
        }
    }

    /// Whether the response is known to be in progress after an event with the
    /// given data.
    pub open spec fn seen_after(self, data: Option<JsonView>) -> bool {
        self.seen_in_progress || has_type(data, RESPONSE_IN_PROGRESS@)
    }

    /// Whether this is the start of a stream with a payload and an input.
    pub open spec fn is_start(
        self,
        payload: JsonView,
        input: InputView,
        max_tool_calls: Option<u32>,
    ) -> bool {
        &&& self.base_payload@ == payload
        &&& self.tools_json@ == ToolLoop::payload_tools(payload)
        &&& self.limit == call_limit(max_tool_calls)
        &&& self.state.original_input@ == input
        &&& self.state.history().len() == 0
        &&& self.state.items().len() == 0
        &&& self.state.total_calls == 0
        &&& self.is_first_iteration
        &&& !self.mcp_list_tools_sent
        &&& !self.seen_in_progress
        &&& self.next_output_index == 0
        &&& self.preserved_response_id is None
    }

    /// What is sent to the client for an event, in order: what is forwarded of it,
    /// and behind it the lists of tools where they are listed now.
    pub open spec fn texts_for(
        self,
        event: SseEventData<'_>,
        action: StreamAction,
        handler: StreamingToolHandler,
        ctx: StreamingEventContext<'_>,
        lists: Seq<JsonView>,
        sequence: nat,
    ) -> Seq<Seq<char>> {
        let sent = sent_for(event, handler, ctx, sequence);
        let plan = self.plan_for(event.value());
        match action {
            StreamAction::Buffer => Seq::empty(),
            StreamAction::ExecuteTools => sent.0,
            StreamAction::Forward => {
                let first = if plan.forward {
                    sent
                } else {
                    (Seq::empty(), sequence)
                };
                if plan.list_tools {
                    first.0 + listing(lists, handler.next_output_index as nat, first.1)
                } else {
                    first.0
                }
            },
        }
    }

    /// Whether the conversation goes on with `payload`, and the stream is in this
    /// state then; `None` where it cannot go on.
    pub open spec fn is_resumed(self, before: StreamLoop, payload: Option<JsonView>) -> bool {
        &&& self.state == before.state
        &&& payload is Some <==> before.base_payload@ is Object
        &&& payload matches Some(p) ==> !self.is_first_iteration && p == resume_payload(
            before.base_payload@,
            before.state.history(),
            before.state.original_input@,
            before.tools_json@,
            true,
        )
    }

    /// Whether a response is received by `handler`: behind the items that were sent,
    /// and under the identifier that the client knows.
    pub open spec fn is_received_by(self, handler: StreamingToolHandler) -> bool {
        &&& handler.next_output_index == self.next_output_index
        &&& opt_view(handler.original_response_id) == opt_view(self.preserved_response_id)
        &&& handler.pending_calls@.len() == 0
        &&& handler.index_map@.len() == 0
    }

    /// Whether `end` is what follows on a response that `handler` received, and the
    /// stream is in this state behind it.
    pub open spec fn is_behind(
        self,
        before: StreamLoop,
        handler: StreamingToolHandler,
        tool_calls_detected: bool,
        end: ResponseEnd,
    ) -> bool {
        let total = before.state.total_calls + handler.pending_calls@.len();
        &&& self.next_output_index == handler.next_output_index
        &&& self.preserved_response_id == (if handler.original_response_id is Some {
            handler.original_response_id
        } else {
            before.preserved_response_id
        })
        &&& self.state.history() == before.state.history()
        &&& self.state.items() == before.state.items()
        &&& if !tool_calls_detected {
            end == ResponseEnd::Finish && self.state.total_calls == before.state.total_calls
        } else {
            &&& self.state.total_calls == total
            &&& end == (if total > before.limit {
                ResponseEnd::LimitReached
            } else {
                ResponseEnd::MakeCalls
            })
        }
    }

    /// The state at the start of a stream whose payload has function tools
    /// already.
    pub fn new(payload: Json, body: &ResponsesRequest, input: ResponseInput) -> (r:
        StreamLoop)
        ensures
            r.wf(),
            r.state.iteration == 0,
            r.state.total_calls == 0,
            r.state.original_input == input,
            r.base_payload@ == payload@,
            r.tools_json@ == ToolLoop::payload_tools(payload@),
            r.is_start(payload@, input@, body.max_tool_calls),
            r.limit == call_limit(body.max_tool_calls),
            r.is_first_iteration,
            !r.mcp_list_tools_sent,
            !r.seen_in_progress,
            r.next_output_index == 0,
            r.preserved_response_id is None,
    {
        let l = ToolLoop::new(payload, input, body.max_tool_calls);
        StreamLoop {
            state: l.state,
            base_payload: l.base_payload,
            tools_json: l.tools_json,
            limit: l.limit,
            is_first_iteration: true,
            mcp_list_tools_sent: false,
            seen_in_progress: false,
            next_output_index: 0,
            preserved_response_id: None,
        }
    }

    /// Begins with a new response of the model.
    pub fn begin_response(&mut self) -> (handler: StreamingToolHandler)
        ensures
            final(self).same_conversation(*old(self)),
            !final(self).seen_in_progress,
            final(self).is_first_iteration == old(self).is_first_iteration,
            final(self).mcp_list_tools_sent == old(self).mcp_list_tools_sent,
            final(self).next_output_index == old(self).next_output_index,
            final(self).preserved_response_id == old(self).preserved_response_id,
            handler.next_output_index == old(self).next_output_index,
            handler.original_response_id == old(self).preserved_response_id,
            handler.pending_calls@.len() == 0,
            handler.index_map@.len() == 0,
            old(self).is_received_by(handler),
    {
        self.seen_in_progress = false;
        StreamingToolHandler::with_starting_index(
            self.next_output_index,
            clone_opt(&self.preserved_response_id),
        )
    }

    /// Decides about an event that the handler lets through: the beginning of
    /// later responses is not shown again, and the tools are listed once, when
    /// the first response is in progress.
    pub fn on_forward(&mut self, parsed: &Option<Json>) -> (plan: ForwardPlan)
        ensures
            final(self).same_conversation(*old(self)),
            final(self).is_first_iteration == old(self).is_first_iteration,
            final(self).next_output_index == old(self).next_output_index,
            final(self).preserved_response_id == old(self).preserved_response_id,
            plan == old(self).plan_for(opt_json(*parsed)),
            final(self).seen_in_progress == old(self).seen_after(
                opt_json(*parsed),
            ),
            final(self).mcp_list_tools_sent == (old(self).mcp_list_tools_sent
                || plan.list_tools),
    {
        let is_progress: bool = data_has_type(parsed, RESPONSE_IN_PROGRESS);
        let begins: bool = is_progress || data_has_type(parsed, RESPONSE_CREATED);
        let in_progress: bool = !self.seen_in_progress && is_progress;
        let list_tools: bool = in_progress && !self.mcp_list_tools_sent;
        if in_progress {
            self.seen_in_progress = true;
            self.mcp_list_tools_sent = true;
        }
        ForwardPlan { forward: self.is_first_iteration || !begins, list_tools }
    }

    /// Takes in an event of the model's stream, about which the handler has
    /// decided. Gives what is sent to the client, in order, and whether the
    /// calls of the response are made now. `list_tools_items` has a list for
    /// each server whose tools are listed.
    pub fn on_event(
        &mut self,
        event: &SseEventData<'_>,
        action: StreamAction,
        handler: &mut StreamingToolHandler,
        ctx: &StreamingEventContext<'_>,
        list_tools_items: &Vec<Json>,
        sequence_number: &mut u64,
    ) -> (r: (Vec<String>, bool))
        requires
            ctx.has_lists(json_views(list_tools_items@)),
            *old(sequence_number) + 3 + 4 * list_tools_items@.len() <= u64::MAX,
            old(handler).next_output_index + list_tools_items@.len() <= usize::MAX,
        ensures
            r.1 == (action is ExecuteTools),
            views(r.0@) == old(self).texts_for(
                *event,
                action,
                *old(handler),
                *ctx,
                json_views(list_tools_items@),
                *old(sequence_number) as nat,
            ),
            final(self).same_conversation(*old(self)),
            final(self).is_first_iteration == old(self).is_first_iteration,
            final(self).next_output_index == old(self).next_output_index,
            final(self).preserved_response_id == old(self).preserved_response_id,
            final(handler).pending_calls == old(handler).pending_calls,
            final(handler).index_map == old(handler).index_map,
            final(handler).original_response_id == old(handler).original_response_id,
            ({
                let start = *old(sequence_number) as nat;
                let sent = sent_for(*event, *old(handler), *ctx, start);
                let data = event.value();
                let plan = old(self).plan_for(data);
                match action {
                    StreamAction::Buffer => {
                        &&& views(r.0@) == Seq::<Seq<char>>::empty()
                        &&& *final(sequence_number) == start
                        &&& *final(handler) == *old(handler)
                        &&& final(self).seen_in_progress == old(self).seen_in_progress
                        &&& final(self).mcp_list_tools_sent == old(self).mcp_list_tools_sent
                    },
                    StreamAction::ExecuteTools => {
                        &&& views(r.0@) == sent.0
                        &&& *final(sequence_number) == sent.1
                        &&& *final(handler) == *old(handler)
                        &&& final(self).seen_in_progress == old(self).seen_in_progress
                        &&& final(self).mcp_list_tools_sent == old(self).mcp_list_tools_sent
                    },
                    StreamAction::Forward => {
                        let first = if plan.forward {
                            sent
                        } else {
                            (Seq::<Seq<char>>::empty(), start)
                        };
                        &&& final(self).seen_in_progress == old(self).seen_after(data)
                        &&& final(self).mcp_list_tools_sent == (old(self).mcp_list_tools_sent
                            || plan.list_tools)
                        &&& if plan.list_tools {
                            &&& views(r.0@) == first.0 + listing(
                                json_views(list_tools_items@),
                                old(handler).next_output_index as nat,
                                first.1,
                            )
                            &&& *final(sequence_number) == first.1 + 4 * list_tools_items@.len()
                            &&& final(handler).next_output_index == old(handler).next_output_index
                                + list_tools_items@.len()
                        } else {
                            &&& views(r.0@) == first.0
                            &&& *final(sequence_number) == first.1
                            &&& *final(handler) == *old(handler)
                        }
                    },
                }
            }),
    {
        let mut texts: Vec<String> = Vec::new();
        assert(views(texts@) =~= Seq::<Seq<char>>::empty());
        match action {
            StreamAction::Buffer => (texts, false),
            StreamAction::ExecuteTools => (
                forward_streaming_event(event, handler, ctx, sequence_number),
                true,
            ),
            StreamAction::Forward => {
                let parsed: Option<Json> = match parse(event.data) {
                    Ok(v) => Some(v),
                    Err(_) => None,
                };
                let plan = self.on_forward(&parsed);
                if plan.forward {
                    texts = forward_streaming_event(event, handler, ctx, sequence_number);
                }
                if plan.list_tools {
                    let mut listed = list_tools_texts(handler, list_tools_items, sequence_number);
                    let ghost first = views(texts@);
                    let ghost second = views(listed@);
                    texts.append(&mut listed);
                    assert(views(texts@) =~= first + second);
                }
                (texts, false)
            },
        }
    }

    /// Ends a response of the model: the next one goes on behind its items and
    /// under the identifier that the client knows. Where the response asks for
    /// calls, they are counted.
    pub fn end_response(
        &mut self,
        handler: &StreamingToolHandler,
        tool_calls_detected: bool,
    ) -> (end: ResponseEnd)
        requires
            old(self).wf(),
            old(self).state.iteration < usize::MAX,
            old(self).state.total_calls + handler.pending_calls@.len() <= usize::MAX,
        ensures
            final(self).state.conversation_history == old(self).state.conversation_history,
            final(self).state.mcp_call_items == old(self).state.mcp_call_items,
            final(self).state.original_input == old(self).state.original_input,
            final(self).base_payload == old(self).base_payload,
            final(self).tools_json == old(self).tools_json,
            final(self).limit == old(self).limit,
            final(self).is_first_iteration == old(self).is_first_iteration,
            final(self).mcp_list_tools_sent == old(self).mcp_list_tools_sent,
            final(self).seen_in_progress == old(self).seen_in_progress,
            final(self).is_behind(*old(self), *handler, tool_calls_detected, end),
            final(self).next_output_index == handler.next_output_index,
            final(self).preserved_response_id == (if handler.original_response_id is Some {
                handler.original_response_id
            } else {
                old(self).preserved_response_id
            }),
            ({
                let total = old(self).state.total_calls + handler.pending_calls@.len();
                if !tool_calls_detected {
                    &&& end == ResponseEnd::Finish
                    &&& final(self).state == old(self).state
                    &&& final(self).wf()
                } else {
                    &&& final(self).state.iteration == old(self).state.iteration + 1
                    &&& final(self).state.total_calls == total
                    &&& if total > old(self).limit {
                        end == ResponseEnd::LimitReached
                    } else {
                        end == ResponseEnd::MakeCalls && final(self).wf()
                    }
                }
            }),
    {
        self.next_output_index = handler.next_output_index;
        if let Some(id) = &handler.original_response_id {
            self.preserved_response_id = Some(id.clone());
        }
        if !tool_calls_detected {
            return ResponseEnd::Finish;
        }
        self.state.iteration = self.state.iteration + 1;
        self.state.total_calls = self.state.total_calls + handler.pending_calls.len();
        if self.state.total_calls > self.limit {
            ResponseEnd::LimitReached
        } else {
            ResponseEnd::MakeCalls
        }
    }

    /// Takes in the result of a call. Gives what is sent to the client, in
    /// order.
    pub fn finish_call(
        &mut self,
        call: &FunctionCallInProgress,
        output: &Json,
        item: Json,
        session: &McpToolSession<'_>,
        sequence_number: &mut u64,
    ) -> (events: Vec<String>)
        requires
            old(self).wf(),
            old(self).state.items().len() < old(self).state.total_calls,
            *old(sequence_number) + 2 <= u64::MAX,
        ensures
            final(self).wf(),
            final(self).state.iteration == old(self).state.iteration,
            final(self).state.total_calls == old(self).state.total_calls,
            final(self).state.original_input == old(self).state.original_input,
            final(self).state.history() == old(self).state.history().push(
                call_item(call.call_id@, call.name@, call.arguments_buffer@),
            ).push(call_output_item(call.call_id@, text_of_json(output@))),
            final(self).state.items() == old(self).state.items().push(item@),
            final(self).state.has_added(
                old(self).state,
                call@,
                text_of_json(output@),
                item@,
            ),
            final(self).base_payload == old(self).base_payload,
            final(self).tools_json == old(self).tools_json,
            final(self).limit == old(self).limit,
            final(self).is_first_iteration == old(self).is_first_iteration,
            final(self).mcp_list_tools_sent == old(self).mcp_list_tools_sent,
            final(self).seen_in_progress == old(self).seen_in_progress,
            final(self).next_output_index == old(self).next_output_index,
            final(self).preserved_response_id == old(self).preserved_response_id,
            views(events@) == shown_completion(
                *call,
                item@,
                *session,
                *old(sequence_number) as nat,
            ),
            *final(sequence_number) == *old(sequence_number) + events@.len(),
    {
        finish_streamed_call(&mut self.state, call, output, item, session, sequence_number)
    }

    /// The payload that goes on with the conversation, or why it cannot go on.
    pub fn resume(&mut self) -> (r: Result<Json, String>)
        ensures
            final(self).same_conversation(*old(self)),
            final(self).mcp_list_tools_sent == old(self).mcp_list_tools_sent,
            final(self).seen_in_progress == old(self).seen_in_progress,
            final(self).next_output_index == old(self).next_output_index,
            final(self).preserved_response_id == old(self).preserved_response_id,
            final(self).is_resumed(
                *old(self),
                match r {
                    Ok(payload) => Some(payload@),
                    Err(_) => None,
                },
            ),
            match r {
                Ok(payload) => {
                    &&& old(self).base_payload@ is Object
                    &&& payload@ == resume_payload(
                        old(self).base_payload@,
                        old(self).state.history(),
                        old(self).state.original_input@,
                        old(self).tools_json@,
                        true,
                    )
                    &&& !final(self).is_first_iteration
                },
                Err(message) => {
                    &&& !(old(self).base_payload@ is Object)
                    &&& message@ == "payload not an object"@
                    &&& final(self).is_first_iteration == old(self).is_first_iteration
                },
            },
    {
        match build_resume_payload(
            &self.base_payload,
            &self.state.conversation_history,
            &self.state.original_input,
            &self.tools_json,
            true,
        ) {
            Ok(payload) => {
                self.is_first_iteration = false;
                Ok(payload)
            },
            Err(e) => Err(e),
        }
    }
}

/// In a stream no more calls are recorded than the request allows, and never
/// more than the gateway allows.
pub proof fn law_streamed_calls_stay_within_limit(l: StreamLoop)
    requires
        l.wf(),
    ensures
        l.state.items().len() <= l.limit <= DEFAULT_MAX_ITERATIONS,
        l.state.history().len() == 2 * l.state.items().len(),
{
}

/// Where the tools were listed, no event makes them be listed again. Only the
/// first response of a stream shows its beginning.
pub proof fn law_beginning_is_shown_once(l: StreamLoop, data: Option<JsonView>)
    ensures
        l.mcp_list_tools_sent ==> !l.plan_for(data).list_tools,
        !l.is_first_iteration && has_type(data, RESPONSE_CREATED@) ==> !l.plan_for(data).forward,
        !l.is_first_iteration && has_type(data, RESPONSE_IN_PROGRESS@) ==> !l.plan_for(
            data,
        ).forward,
        l.is_first_iteration ==> l.plan_for(data).forward,
{
}

} // verus!

//! Tool calls: their arguments, their results and what is recorded of them.

use vstd::prelude::*;

use crate::approval::McpApprovalRequest;
use crate::assoc::{get_entry, keys_of, lemma_position};
use crate::error::{ErrorView, McpError};
use crate::inventory::{ArgMapping, EntryView, MappingView, NameView, ResponseFormat, ToolEntry};
use crate::json::{
    entry_get, entry_keys, entry_views, group_json_views, lemma_get_after_set,
    lemma_get_after_without, lemma_set_keeps_others, unique_keys, Entries, Json, JsonView,
};
use crate::order::{pair_list, Pair};
use crate::text::{opt_view, views};
use crate::wire::{print, text_of_json};

verus! {

broadcast use vstd::string::group_string_axioms;

// ---------------------------------------------------------------------------
// Results of calls
// ---------------------------------------------------------------------------

/// Result of a tool call.
#[derive(Debug, PartialEq, Eq)]
pub enum ToolCallResult {
    /// The tool was called; its result as an output item.
    Success(Json),
    /// The user has yet to approve the call.
    PendingApproval(McpApprovalRequest),
}

/// A JSON object with the single entry `error`.
pub open spec fn error_object(message: Seq<char>) -> JsonView {
    JsonView::Object(seq![("error"@, JsonView::Text(message))])
}

/// A JSON object with the single entry `error`.
pub fn make_error_object(message: &str) -> (json: Json)
    ensures
        json@ == error_object(message@),
{
    let entries = Entries::new().with("error", Json::text(message));
    assert(entries@ =~= seq![("error"@, JsonView::Text(message@))]);
    entries.into_object()
}

/// What a client is told where nobody can be asked for approval.
pub open spec fn no_approval_text() -> Seq<char> {
    "Tool requires approval (not supported in this context)"@
}

impl ToolCallResult {
    /// The output item of a call that was made.
    pub fn into_item(self) -> (r: Option<Json>)
        ensures
            r == (match self {
                ToolCallResult::Success(item) => Some(item),
                ToolCallResult::PendingApproval(_) => None,
            }),
    {
        match self {
            ToolCallResult::Success(item) => Some(item),
            ToolCallResult::PendingApproval(_) => None,
        }
    }

    /// The result as text, whether it is an error, and the error's message.
    pub fn into_serialized(self) -> (r: (String, bool, Option<String>))
        ensures
            match self {
                ToolCallResult::Success(item) => r.0@ == text_of_json(item@) && !r.1 && r.2 is None,
                ToolCallResult::PendingApproval(_) => r.0@ == text_of_json(
                    error_object(no_approval_text()),
                ) && r.1 && opt_view(r.2) == Some(no_approval_text()),
            },
    {
        match self {
            ToolCallResult::Success(item) => (print(&item), false, None),
            ToolCallResult::PendingApproval(_) => {
                let message: String =
                    "Tool requires approval (not supported in this context)".to_owned();
                (print(&make_error_object(message.as_str())), true, Some(message))
            },
        }
    }
}

/// A tool call that the model asked for.
#[derive(Debug, PartialEq, Eq)]
pub struct ToolExecutionInput {
    pub call_id: String,
    pub tool_name: String,
    pub arguments: Json,
}

/// What is recorded of a tool call.
#[derive(Debug, PartialEq, Eq)]
pub struct ToolExecutionOutput {
    /// The identifier that the model gave to the call.
    pub call_id: String,
    /// The name under which the tool was called.
    pub tool_name: String,
    /// The server, as the gateway knows it.
    pub server_key: String,
    /// The server, as the client knows it.
    pub server_label: String,
    /// The arguments as text.
    pub arguments_str: String,
    /// What the tool gave back.
    pub output: Json,
    pub is_error: bool,
    pub error_message: Option<String>,
    /// How the result is presented.
    pub response_format: ResponseFormat,
    pub duration_ms: u64,
}

/// What came of calling a tool.
#[derive(Debug, PartialEq, Eq)]
pub enum CallOutcome {
    /// The server answered.
    Answered { content: Json, is_error: Option<bool> },
    /// The user has yet to approve the call.
    PendingApproval,
    /// The call failed; the message of the error.
    Failed(String),
}

/// Format, output, error flag and error message of a call.
pub type OutcomeView = (ResponseFormat, JsonView, bool, Option<Seq<char>>);

/// An outcome that is an error with the given message.
pub open spec fn failed_outcome(format: ResponseFormat, message: Seq<char>) -> OutcomeView {
    (format, error_object(message), true, Some(message))
}

/// What is recorded of a call of a tool.
pub open spec fn outcome_view(format: ResponseFormat, outcome: CallOutcome) -> OutcomeView {
    match outcome {
        CallOutcome::Answered { content, is_error } => (
            format,
            content@,
            is_error == Some(true),
            None,
        ),
        CallOutcome::PendingApproval => failed_outcome(format, no_approval_text()),
        CallOutcome::Failed(e) => failed_outcome(format, "Tool call failed: "@ + e@),
    }
}

/// The view of format, output, error flag and error message.
pub open spec fn recorded(
    format: ResponseFormat,
    output: Json,
    is_error: bool,
    message: Option<String>,
) -> OutcomeView {
    (format, output@, is_error, opt_view(message))
}

fn failure(format: ResponseFormat, message: String) -> (r: (ResponseFormat, Json, bool, Option<String>))
    ensures
        recorded(r.0, r.1, r.2, r.3) == failed_outcome(format, message@),
{
    (format, make_error_object(message.as_str()), true, Some(message))
}

/// What is recorded of a call of `entry`.
pub fn execute_tool_entry(entry: &ToolEntry, outcome: CallOutcome) -> (r: (
    ResponseFormat,
    Json,
    bool,
    Option<String>,
))
    ensures
        recorded(r.0, r.1, r.2, r.3) == outcome_view(entry@.response_format, outcome),
{
    match outcome {
        CallOutcome::Answered { content, is_error } => (
            entry.response_format,
            content,
            match is_error {
                Some(b) => b,
                None => false,
            },
            None,
        ),
        CallOutcome::PendingApproval => failure(
            entry.response_format,
            "Tool requires approval (not supported in this context)".to_owned(),
        ),
        CallOutcome::Failed(e) => {
            let mut message: String = "Tool call failed: ".to_owned();
            message.append(e.as_str());
            failure(entry.response_format, message)
        },
    }
}

/// The message where a tool is missing on its server.
pub open spec fn missing_tool_text(tool: Seq<char>, server: Seq<char>) -> Seq<char> {
    "Tool '"@ + tool + "' not found on server '"@ + server + "'"@
}

/// What is recorded of a call by qualified name, where `entry` is what the
/// inventory holds under it.
pub open spec fn resolved_outcome(
    tool: Seq<char>,
    server: Seq<char>,
    entry: Option<EntryView>,
    outcome: CallOutcome,
) -> OutcomeView {
    match entry {
        Some(e) => outcome_view(e.response_format, outcome),
        None => failed_outcome(ResponseFormat::Passthrough, missing_tool_text(tool, server)),
    }
}

/// Whether `output` records a call of `input` with the given outcome.
pub open spec fn records(
    output: ToolExecutionOutput,
    call_id: Seq<char>,
    tool: Seq<char>,
    arguments: JsonView,
    server: Seq<char>,
    label: Seq<char>,
    outcome: OutcomeView,
) -> bool {
    &&& output.call_id@ == call_id
    &&& output.tool_name@ == tool
    &&& output.server_key@ == server
    &&& output.server_label@ == label
    &&& output.arguments_str@ == text_of_json(arguments)
    &&& recorded(
        output.response_format,
        output.output,
        output.is_error,
        output.error_message,
    ) == outcome
}

/// The record of a call by qualified name. `entry` is what the inventory holds
/// under the name; where it holds nothing, the outcome does not matter.
pub fn record_resolved(
    input: ToolExecutionInput,
    server_key: &str,
    server_label: &str,
    entry: &Option<ToolEntry>,
    outcome: CallOutcome,
    duration_ms: u64,
) -> (output: ToolExecutionOutput)
    ensures
        records(
            output,
            input.call_id@,
            input.tool_name@,
            input.arguments@,
            server_key@,
            server_label@,
            resolved_outcome(
                input.tool_name@,
                server_key@,
                match *entry {
                    Some(e) => Some(e@),
                    None => None,
                },
                outcome,
            ),
        ),
        output.duration_ms == duration_ms,
{
    let arguments_str = print(&input.arguments);
    let (response_format, output, is_error, error_message) = match entry {
        Some(e) => execute_tool_entry(e, outcome),
        None => {
            let mut message: String = "Tool '".to_owned();
            message.append(input.tool_name.as_str());
            message.append("' not found on server '");
            message.append(server_key);
            message.append("'");
            failure(ResponseFormat::Passthrough, message)
        },
    };
    ToolExecutionOutput {
        call_id: input.call_id,
        tool_name: input.tool_name,
        server_key: server_key.to_owned(),
        server_label: server_label.to_owned(),
        arguments_str,
        output,
        is_error,
        error_message,
        response_format,
        duration_ms,
    }
}

// ---------------------------------------------------------------------------
// Arguments
// ---------------------------------------------------------------------------

/// The arguments after one was renamed: what `from` held is then under `to`.
pub open spec fn renamed(args: JsonView, from: Seq<char>, to: Seq<char>) -> JsonView {
    match args.get(from) {
        Some(value) => args.without(from).set(to, value),
        None => args,
    }
}

/// The arguments after the renames, in their order.
pub open spec fn with_renames(args: JsonView, renames: Seq<Pair>) -> JsonView
    decreases renames.len(),
{
    if renames.len() == 0 {
        args
    } else {
        renamed(with_renames(args, renames.drop_last()), renames.last().0, renames.last().1)
    }
}

/// The arguments with `value` under `key`, where it was missing.
pub open spec fn defaulted(args: JsonView, key: Seq<char>, value: JsonView) -> JsonView {
    if args.get(key) is None {
        args.set(key, value)
    } else {
        args
    }
}

/// The arguments after the defaults, in their order.
pub open spec fn with_defaults(args: JsonView, defaults: Seq<(Seq<char>, JsonView)>) -> JsonView
    decreases defaults.len(),
{
    if defaults.len() == 0 {
        args
    } else {
        defaulted(
            with_defaults(args, defaults.drop_last()),
            defaults.last().0,
            defaults.last().1,
        )
    }
}

/// The arguments after a mapping: renames first, then defaults.
pub open spec fn mapped(args: JsonView, mapping: MappingView) -> JsonView {
    with_defaults(with_renames(args, mapping.renames), mapping.defaults)
}

/// Rewrites arguments by a mapping: renames first, then defaults for what is
/// still missing. Arguments that are no object stay as they are.
pub fn apply_arg_mapping(args: Json, mapping: &ArgMapping) -> (r: Json)
    ensures
        r@ == mapped(args@, mapping@),
{
    let mut r = args;
    let ghost start = r@;
    let ghost renames = mapping@.renames;
    for i in 0..mapping.renames.len()
        invariant
            renames == pair_list(mapping.renames@),
            r@ == with_renames(start, renames.take(i as int)),
    {
        proof {
            let next = renames.take(i + 1);
            assert(next.drop_last() =~= renames.take(i as int));
            assert(next.last() == renames[i as int]);
        }
        let from = &mapping.renames[i].0;
        let to = &mapping.renames[i].1;
        let ghost before = r@;
        match r.remove(from.as_str()) {
            Some(value) => {
                r.set(to.as_str(), value);
            },
            None => {
                assert(before.get(from@) is None);
                proof {
                    lemma_without_missing(before, from@);
                }
            },
        }
    }
    assert(renames.take(mapping.renames@.len() as int) =~= renames);
    let ghost middle = r@;
    let ghost defaults = mapping@.defaults;
    for i in 0..mapping.defaults.len()
        invariant
            defaults == entry_views(mapping.defaults@),
            r@ == with_defaults(middle, defaults.take(i as int)),
    {
        proof {
            let next = defaults.take(i + 1);
            assert(next.drop_last() =~= defaults.take(i as int));
            assert(next.last() == defaults[i as int]);
        }
        let key = &mapping.defaults[i].0;
        if !r.has(key.as_str()) {
            r.set(key.as_str(), mapping.defaults[i].1.clone());
        }
    }
    assert(defaults.take(mapping.defaults@.len() as int) =~= defaults);
    r
}

proof fn lemma_without_missing(v: JsonView, key: Seq<char>)
    requires
        v.get(key) is None,
    ensures
        v.without(key) == v,
{
}

/// Defaults never change an argument that was given.
pub proof fn law_defaults_keep_given(
    args: JsonView,
    defaults: Seq<(Seq<char>, JsonView)>,
    key: Seq<char>,
)
    requires
        args.get(key) is Some,
    ensures
        with_defaults(args, defaults).get(key) == args.get(key),
    decreases defaults.len(),
{
    if defaults.len() > 0 {
        law_defaults_keep_given(args, defaults.drop_last(), key);
        let before = with_defaults(args, defaults.drop_last());
        if before.get(defaults.last().0) is None {
            lemma_set_keeps_others(before, defaults.last().0, defaults.last().1, key);
        }
    }
}

/// A default is there afterwards, whatever was given.
pub proof fn law_defaults_are_filled(
    args: JsonView,
    defaults: Seq<(Seq<char>, JsonView)>,
    i: int,
)
    requires
        args is Object,
        0 <= i < defaults.len(),
    ensures
        with_defaults(args, defaults) is Object,
        with_defaults(args, defaults).get(defaults[i].0) is Some,
    decreases defaults.len(),
{
    let rest = defaults.drop_last();
    let before = with_defaults(args, rest);
    if rest.len() > 0 {
        law_defaults_are_filled(
            args,
            rest,
            if i < rest.len() {
                i
            } else {
                0
            },
        );
    }
    let key = defaults.last().0;
    lemma_get_after_set(before, key, defaults.last().1);
    if i < rest.len() && defaults[i].0 != key {
        lemma_set_keeps_others(before, key, defaults.last().1, defaults[i].0);
        assert(rest[i] == defaults[i]);
    }
}

/// A rename moves an argument: its new name holds it, its old name is gone, and
/// the other arguments stay.
pub proof fn law_rename_moves(args: JsonView, from: Seq<char>, to: Seq<char>, other: Seq<char>)
    requires
        args is Object,
        unique_keys(args->Object_0),
        args.get(from) is Some,
        from != to,
        other != from,
        other != to,
    ensures
        renamed(args, from, to).get(to) == args.get(from),
        renamed(args, from, to).get(from) is None,
        renamed(args, from, to).get(other) == args.get(other),
{
    let value = args.get(from)->0;
    let gone = args.without(from);
    lemma_get_after_without(args, from, other);
    lemma_get_after_set(gone, to, value);
    lemma_set_keeps_others(gone, to, value, from);
    lemma_set_keeps_others(gone, to, value, other);
}

/// Whether a schema says that an argument is a number.
pub open spec fn wants_number(schema: JsonView, key: Seq<char>) -> bool {
    match schema.get("properties"@) {
        Some(props) => match props.get(key) {
            Some(prop) => prop.get_text("type"@) == Some("number"@) || prop.get_text("type"@)
                == Some("integer"@),
            None => false,
        },
        None => false,
    }
}

/// The number that a text stands for in a table of numbers.
pub open spec fn number_for(numbers: Seq<(Seq<char>, JsonView)>, text: Seq<char>) -> Option<JsonView> {
    entry_get(numbers, text)
}

/// One argument after coercion: a text that should be a number and stands for
/// one is that number.
pub open spec fn coerced_value(
    schema: JsonView,
    numbers: Seq<(Seq<char>, JsonView)>,
    key: Seq<char>,
    value: JsonView,
) -> JsonView {
    match value {
        JsonView::Text(s) => if wants_number(schema, key) {
            match number_for(numbers, s) {
                Some(n) => n,
                None => value,
            }
        } else {
            value
        },
        _ => value,
    }
}

/// The arguments after coercion.
pub open spec fn coerced(
    schema: JsonView,
    numbers: Seq<(Seq<char>, JsonView)>,
    args: JsonView,
) -> JsonView {
    match args {
        JsonView::Object(entries) => JsonView::Object(
            Seq::new(
                entries.len(),
                |i: int|
                    (
                        entries[i].0,
                        coerced_value(schema, numbers, entries[i].0, entries[i].1),
                    ),
            ),
        ),
        _ => args,
    }
}

/// Whether a schema says that an argument is a number.
fn is_number_wanted(schema: &Json, key: &str) -> (r: bool)
    ensures
        r == wants_number(schema@, key@),
{
    match schema.get("properties") {
        Some(props) => match props.get(key) {
            Some(prop) => prop.text_is("type", "number") || prop.text_is("type", "integer"),
            None => false,
        },
        None => false,
    }
}

/// The texts among the arguments that should be numbers, in the order of the
/// arguments.
pub open spec fn numeric_texts_of(schema: JsonView, entries: Seq<(Seq<char>, JsonView)>) -> Seq<
    Seq<char>,
>
    decreases entries.len(),
{
    if entries.len() == 0 {
        Seq::empty()
    } else {
        let rest = numeric_texts_of(schema, entries.drop_last());
        match entries.last().1 {
            JsonView::Text(s) => if wants_number(schema, entries.last().0) {
                rest.push(s)
            } else {
                rest
            },
            _ => rest,
        }
    }
}

/// The texts among the arguments that should be numbers.
pub fn numeric_texts(args: &Json, schema: &Json) -> (r: Vec<String>)
    ensures
        views(r@) == (match args@ {
            JsonView::Object(entries) => numeric_texts_of(schema@, entries),
            _ => Seq::<Seq<char>>::empty(),
        }),
{
    broadcast use group_json_views;

    let mut r: Vec<String> = Vec::new();
    assert(views(r@) =~= Seq::<Seq<char>>::empty());
    match args {
        Json::Object(entries) => {
            let ghost list = entry_views(entries@);
            assert(list.take(0) =~= Seq::<(Seq<char>, JsonView)>::empty());
            for i in 0..entries.len()
                invariant
                    list == entry_views(entries@),
                    views(r@) == numeric_texts_of(schema@, list.take(i as int)),
            {
                proof {
                    let next = list.take(i + 1);
                    assert(next.drop_last() =~= list.take(i as int));
                    assert(next.last() == list[i as int]);
                }
                if let Some(s) = entries[i].1.as_str() {
                    if is_number_wanted(schema, entries[i].0.as_str()) {
                        let ghost before = views(r@);
                        r.push(s.to_owned());
                        assert(views(r@) =~= before.push(s@));
                    }
                }
            }
            assert(list.take(entries@.len() as int) =~= list);
        },
        _ => {},
    }
    r
}

/// Turns texts that should be numbers into numbers, by a table that gives the
/// number for each text that stands for one.
pub fn coerce_arg_types(args: Json, schema: &Json, numbers: &Vec<(String, Json)>) -> (r: Json)
    ensures
        r@ == coerced(schema@, entry_views(numbers@), args@),
{
    broadcast use group_json_views;

    match args {
        Json::Object(entries) => {
            let mut out: Vec<(String, Json)> = Vec::new();
            let ghost list = entry_views(entries@);
            let ghost table = entry_views(numbers@);
            for i in 0..entries.len()
                invariant
                    list == entry_views(entries@),
                    table == entry_views(numbers@),
                    out@.len() == i,
                    forall|j: int|
                        0 <= j < i ==> (#[trigger] out@[j]).0@ == list[j].0 && out@[j].1@
                            == coerced_value(schema@, table, list[j].0, list[j].1),
            {
                let key = &entries[i].0;
                let value = &entries[i].1;
                assert(list[i as int] == (key@, value@));
                let new_value = match value.as_str() {
                    Some(s) => if is_number_wanted(schema, key.as_str()) {
                        proof {
                            assert(entry_keys(table) =~= keys_of(numbers@));
                            lemma_position(keys_of(numbers@), s@);
                        }
                        match get_entry(numbers, s) {
                            Some(n) => n.clone(),
                            None => value.clone(),
                        }
                    } else {
                        value.clone()
                    },
                    None => value.clone(),
                };
                out.push((key.clone(), new_value));
            }
            let r = Json::Object(out);
            assert(r@->Object_0 =~= coerced(schema@, table, JsonView::Object(list))->Object_0);
            r
        },
        other => other,
    }
}

/// Coercion touches only arguments that the schema declares as numbers.
pub proof fn law_coercion_keeps_others(
    schema: JsonView,
    numbers: Seq<(Seq<char>, JsonView)>,
    entries: Seq<(Seq<char>, JsonView)>,
    i: int,
)
    requires
        0 <= i < entries.len(),
        !wants_number(schema, entries[i].0) || !(entries[i].1 is Text),
    ensures
        coerced(schema, numbers, JsonView::Object(entries))->Object_0[i] == entries[i],
{
}

// ---------------------------------------------------------------------------
// Requests to servers
// ---------------------------------------------------------------------------

/// A call as it goes to a server.
#[derive(Debug, PartialEq, Eq)]
pub struct CallRequest {
    pub name: String,
    /// The arguments, where they are an object.
    pub arguments: Option<Vec<(String, Json)>>,
}

/// The entries of arguments that are an object.
pub open spec fn argument_entries(args: JsonView) -> Option<Seq<(Seq<char>, JsonView)>> {
    match args {
        JsonView::Object(entries) => Some(entries),
        _ => None,
    }
}

/// Whether `request` calls a tool with the given arguments.
pub open spec fn requests(request: CallRequest, tool: Seq<char>, args: JsonView) -> bool {
    &&& request.name@ == tool
    &&& match request.arguments {
        Some(entries) => argument_entries(args) == Some(entry_views(entries@)),
        None => argument_entries(args) is None,
    }
}

/// A call of a tool with the given arguments.
pub fn make_request(tool: &str, args: Json) -> (request: CallRequest)
    ensures
        requests(request, tool@, args@),
{
    broadcast use group_json_views;

    CallRequest {
        name: tool.to_owned(),
        arguments: match args {
            Json::Object(entries) => Some(entries),
            _ => None,
        },
    }
}

/// The tool that is called for an entry: the one behind an alias, or its own.
pub open spec fn call_target(entry: EntryView) -> NameView {
    match entry.alias {
        Some(alias) => alias.target,
        None => entry.name,
    }
}

/// The arguments as an alias rewrites them, before coercion.
pub open spec fn alias_arguments(entry: EntryView, args: JsonView) -> JsonView {
    match entry.alias {
        Some(alias) => match alias.arg_mapping {
            Some(mapping) => mapped(args, mapping),
            None => args,
        },
        None => args,
    }
}

/// The arguments as the alias of `entry` rewrites them, before coercion.
pub fn map_arguments(entry: &ToolEntry, args: Json) -> (r: Json)
    ensures
        r@ == alias_arguments(entry@, args@),
{
    match &entry.alias_target {
        Some(alias) => match &alias.arg_mapping {
            Some(mapping) => apply_arg_mapping(args, mapping),
            None => args,
        },
        None => args,
    }
}

/// The server and the request for a call of `entry` with arguments that were
/// mapped before. `numbers` gives the number for each text that stands for
/// one.
pub fn prepare_call(entry: &ToolEntry, mapped_args: Json, numbers: &Vec<(String, Json)>) -> (r: (
    String,
    CallRequest,
))
    ensures
        r.0@ == call_target(entry@).0,
        requests(
            r.1,
            call_target(entry@).1,
            coerced(entry@.tool.input_schema, entry_views(numbers@), mapped_args@),
        ),
{
    let args = coerce_arg_types(mapped_args, &entry.tool.input_schema, numbers);
    match &entry.alias_target {
        Some(alias) => (
            alias.target.server_key().to_owned(),
            make_request(alias.target.tool_name(), args),
        ),
        None => (entry.server_key().to_owned(), make_request(entry.tool_name(), args)),
    }
}

/// How a call to a server failed.
#[derive(Debug, Clone, PartialEq, Eq)]
pub enum CallFailure {
    TransportClosed,
    TransportSend,
    /// Any other failure; its message.
    Other(String),
}

/// The error for a failed call.
pub open spec fn call_error_view(server: Seq<char>, failure: CallFailure) -> ErrorView {
    match failure {
        CallFailure::TransportClosed => ErrorView::ServerDisconnected(server),
        CallFailure::TransportSend => ErrorView::ServerDisconnected(server),
        CallFailure::Other(e) => ErrorView::ToolExecution("MCP call failed: "@ + e@),
    }
}

/// The error for a call to `server_key` that failed.
pub fn call_error(server_key: &str, failure: CallFailure) -> (e: McpError)
    ensures
        e@ == call_error_view(server_key@, failure),
{
    match failure {
        CallFailure::TransportClosed => McpError::ServerDisconnected(server_key.to_owned()),
        CallFailure::TransportSend => McpError::ServerDisconnected(server_key.to_owned()),
        CallFailure::Other(detail) => {
            let mut message: String = "MCP call failed: ".to_owned();
            message.append(detail.as_str());
            McpError::ToolExecution(message)
        },
    }
}

} // verus!

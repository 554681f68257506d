//! Laws of the tools that a session exposes, and of their calls.

use vstd::prelude::*;

use crate::config::ResponseFormatConfig;
use crate::error::ErrorView;
use crate::execution::{
    alias_arguments, call_error_view, call_target, coerced, mapped, numeric_texts_of, records,
    renamed, requests, resolved_outcome, wants_number, with_defaults, with_renames, CallFailure,
    CallOutcome, CallRequest, ToolExecutionOutput,
};
use crate::inventory::{
    alias_get, formatted, law_inventory_put, lemma_tool_index, names_distinct, of_servers,
    offer_index, qualified_text, server_entry, tool_get, with_offers, with_server_tools,
    without_server, EntryView, MappingView, NameView, OfferView, ResponseFormat, ToolCategory,
    ToolView,
};
use crate::json::{entry_get, entry_views, JsonView};
use crate::laws::objects::{law_appended_entry, law_written_entry};
use crate::orchestrator::{is_builtin_server, is_internal_server, McpOrchestrator};
use crate::order::Pair;
use crate::session::{
    allowed_only, allowlist, base_name, candidate, exposed_get, exposed_index, exposed_names,
    exposed_tools, exposed_views, fallback_label, first_free, free_name, is_allowed, label_of,
    list_allows, name_count, not_exposed_text, of_server, visible_servers, BindingView,
    ExposedView, McpToolSession,
};
use crate::text::{decimal, opt_view, sanitized, trimmed};
use crate::wire::text_of_json;

verus! {

broadcast use {law_written_entry, vstd::string::group_string_axioms};

/// Clearing a server takes out its tools and no others.
pub proof fn law_tools_of_a_server_are_cleared_one_by_one(
    a: Seq<EntryView>,
    b: Seq<EntryView>,
    x: EntryView,
    server: Seq<char>,
)
    ensures
        without_server(a + b, server) == without_server(a, server) + without_server(b, server),
        without_server(Seq::<EntryView>::empty(), server) == Seq::<EntryView>::empty(),
        without_server(seq![x], server) == (if x.name.0 == server {
            Seq::empty()
        } else {
            seq![x]
        }),
    decreases b.len(),
{
    reveal_with_fuel(without_server, 2);
    assert(seq![x].drop_last() =~= Seq::<EntryView>::empty());
    assert(without_server(seq![x], server) =~= (if x.name.0 == server {
            Seq::empty()
        } else {
            seq![x]
        }));
    if b.len() == 0 {
        assert(a + b =~= a);
        assert(without_server(a, server) + without_server(b, server) =~= without_server(a, server));
    } else {
        law_tools_of_a_server_are_cleared_one_by_one(a, b.drop_last(), x, server);
        assert((a + b).drop_last() =~= a + b.drop_last());
        assert(without_server(a + b, server) =~= without_server(a, server) + without_server(b, server));
    }
}

/// The tools of some servers are those of their keys, in the order of the
/// inventory.
pub proof fn law_tools_of_servers_are_taken_one_by_one(
    a: Seq<EntryView>,
    b: Seq<EntryView>,
    x: EntryView,
    servers: Seq<Seq<char>>,
)
    ensures
        of_servers(a + b, servers) == of_servers(a, servers) + of_servers(b, servers),
        of_servers(Seq::<EntryView>::empty(), servers) == Seq::<EntryView>::empty(),
        of_servers(seq![x], servers) == (if servers.contains(x.name.0) {
            seq![x]
        } else {
            Seq::empty()
        }),
    decreases b.len(),
{
    reveal_with_fuel(of_servers, 2);
    assert(seq![x].drop_last() =~= Seq::<EntryView>::empty());
    assert(of_servers(seq![x], servers) =~= (if servers.contains(x.name.0) {
            seq![x]
        } else {
            Seq::empty()
        }));
    if b.len() == 0 {
        assert(a + b =~= a);
        assert(of_servers(a, servers) + of_servers(b, servers) =~= of_servers(a, servers));
    } else {
        law_tools_of_servers_are_taken_one_by_one(a, b.drop_last(), x, servers);
        assert((a + b).drop_last() =~= a + b.drop_last());
        assert(of_servers(a + b, servers) =~= of_servers(a, servers) + of_servers(b, servers));
    }
}

/// Of the tools of its servers a session has those that its bindings allow.
pub proof fn law_allowed_tools_are_taken_one_by_one(
    a: Seq<EntryView>,
    b: Seq<EntryView>,
    x: EntryView,
    servers: Seq<BindingView>,
)
    ensures
        allowed_only(a + b, servers) == allowed_only(a, servers) + allowed_only(b, servers),
        allowed_only(Seq::<EntryView>::empty(), servers) == Seq::<EntryView>::empty(),
        allowed_only(seq![x], servers) == (if is_allowed(servers, x.name) {
            seq![x]
        } else {
            Seq::empty()
        }),
    decreases b.len(),
{
    reveal_with_fuel(allowed_only, 2);
    assert(seq![x].drop_last() =~= Seq::<EntryView>::empty());
    assert(allowed_only(seq![x], servers) =~= (if is_allowed(servers, x.name) {
            seq![x]
        } else {
            Seq::empty()
        }));
    if b.len() == 0 {
        assert(a + b =~= a);
        assert(allowed_only(a, servers) + allowed_only(b, servers) =~= allowed_only(a, servers));
    } else {
        law_allowed_tools_are_taken_one_by_one(a, b.drop_last(), x, servers);
        assert((a + b).drop_last() =~= a + b.drop_last());
        assert(allowed_only(a + b, servers) =~= allowed_only(a, servers) + allowed_only(b, servers));
    }
}

/// The servers of built-in tools are not shown to the client; all others are.
pub proof fn law_shown_servers_are_taken_one_by_one(
    a: Seq<BindingView>,
    b: Seq<BindingView>,
    x: BindingView,
    orchestrator: McpOrchestrator,
)
    ensures
        visible_servers(a + b, orchestrator) == visible_servers(a, orchestrator) + visible_servers(b, orchestrator),
        visible_servers(Seq::<BindingView>::empty(), orchestrator) == Seq::<BindingView>::empty(),
        visible_servers(seq![x], orchestrator) == (if is_builtin_server(
            orchestrator@.records,
            orchestrator.config.servers@,
            x.server_key,
        ) {
            Seq::empty()
        } else {
            seq![x]
        }),
    decreases b.len(),
{
    reveal_with_fuel(visible_servers, 2);
    assert(seq![x].drop_last() =~= Seq::<BindingView>::empty());
    assert(visible_servers(seq![x], orchestrator) =~= (if is_builtin_server(
            orchestrator@.records,
            orchestrator.config.servers@,
            x.server_key,
        ) {
            Seq::empty()
        } else {
            seq![x]
        }));
    if b.len() == 0 {
        assert(a + b =~= a);
        assert(visible_servers(a, orchestrator) + visible_servers(b, orchestrator) =~= visible_servers(a, orchestrator));
    } else {
        law_shown_servers_are_taken_one_by_one(a, b.drop_last(), x, orchestrator);
        assert((a + b).drop_last() =~= a + b.drop_last());
        assert(visible_servers(a + b, orchestrator) =~= visible_servers(a, orchestrator) + visible_servers(b, orchestrator));
    }
}

/// The tools that are listed for a server are its own.
pub proof fn law_tools_of_one_server_are_taken_one_by_one(
    a: Seq<EntryView>,
    b: Seq<EntryView>,
    x: EntryView,
    key: Seq<char>,
)
    ensures
        of_server(a + b, key) == of_server(a, key) + of_server(b, key),
        of_server(Seq::<EntryView>::empty(), key) == Seq::<EntryView>::empty(),
        of_server(seq![x], key) == (if x.name.0 == key {
            seq![x]
        } else {
            Seq::empty()
        }),
    decreases b.len(),
{
    reveal_with_fuel(of_server, 2);
    assert(seq![x].drop_last() =~= Seq::<EntryView>::empty());
    assert(of_server(seq![x], key) =~= (if x.name.0 == key {
            seq![x]
        } else {
            Seq::empty()
        }));
    if b.len() == 0 {
        assert(a + b =~= a);
        assert(of_server(a, key) + of_server(b, key) =~= of_server(a, key));
    } else {
        law_tools_of_one_server_are_taken_one_by_one(a, b.drop_last(), x, key);
        assert((a + b).drop_last() =~= a + b.drop_last());
        assert(of_server(a + b, key) =~= of_server(a, key) + of_server(b, key));
    }
}

// ---------------------------------------------------------------------------
// Bindings and exposed names
// ---------------------------------------------------------------------------

/// The tools that a request allows of a server are those of its last binding that
/// names any; without such a binding all are allowed.
pub proof fn law_allowed_tools(servers: Seq<BindingView>, binding: BindingView, key: Seq<char>)
    ensures
        allowlist(Seq::empty(), key) is None,
        allowlist(servers.push(binding), key) == (if binding.server_key == key
            && binding.allowed_tools is Some {
            binding.allowed_tools
        } else {
            allowlist(servers, key)
        }),
        forall|tool: Seq<char>|
            allowlist(servers, key) is None ==> #[trigger] is_allowed(servers, (key, tool)),
        forall|tool: Seq<char>|
            allowlist(servers, key) matches Some(list) ==> #[trigger] is_allowed(
                servers,
                (key, tool),
            ) == list_allows(list, tool),
{
    assert(servers.push(binding).drop_last() =~= servers);
}

/// A list allows the tools whose names stand in it, without the white space around
/// them; an empty name allows nothing.
pub proof fn law_list_of_allowed_tools(list: Seq<Seq<char>>, i: int, tool: Seq<char>)
    ensures
        0 <= i < list.len() && trimmed(list[i]) == tool && tool.len() > 0 ==> list_allows(
            list,
            tool,
        ),
        list_allows(list, tool) ==> tool.len() > 0 && exists|j: int|
            0 <= j < list.len() && trimmed(#[trigger] list[j]) == tool,
{
}

/// The label of a server is that of its last binding; without one it is its key.
pub proof fn law_label_of_a_server(servers: Seq<BindingView>, binding: BindingView, key: Seq<char>)
    ensures
        label_of(Seq::empty(), key) == key,
        label_of(servers.push(binding), key) == (if binding.server_key == key {
            binding.label
        } else {
            label_of(servers, key)
        }),
{
    assert(servers.push(binding).drop_last() =~= servers);
}

/// How often a name occurs among the tools.
pub proof fn law_count_of_a_name(tools: Seq<EntryView>, entry: EntryView, tool: Seq<char>)
    ensures
        name_count(Seq::empty(), tool) == 0,
        name_count(tools.push(entry), tool) == name_count(tools, tool) + (if entry.name.1 == tool {
            1nat
        } else {
            0
        }),
{
    assert(tools.push(entry).drop_last() =~= tools);
}

/// A tool whose name no other tool has is exposed under its own name; a name that
/// several have is made from the label of the server and the name.
pub proof fn law_base_name(tools: Seq<EntryView>, servers: Seq<BindingView>, name: NameView)
    ensures
        name_count(tools, name.1) <= 1 ==> base_name(tools, servers, name) == name.1,
        name_count(tools, name.1) > 1 ==> base_name(tools, servers, name) == "mcp_"@ + sanitized(
            label_of(servers, name.0),
        ) + "_"@ + sanitized(name.1),
{
}

/// The name that a tool gets is the first free one: its base name, or the base name
/// with the smallest number behind it that makes it free.
pub proof fn law_first_free_name(base: Seq<char>, used: Seq<Seq<char>>, j: nat)
    ensures
        !used.contains(base) ==> free_name(base, used) == base,
        candidate(base, 0) == base,
        j > 0 ==> candidate(base, j) == base + "_"@ + decimal(j),
        free_name(base, used) == candidate(base, first_free(base, used, 0)),
        j < first_free(base, used, 0) ==> used.contains(candidate(base, j)),
{
    lemma_smaller_are_used(base, used, 0, j);
}

proof fn lemma_smaller_are_used(base: Seq<char>, used: Seq<Seq<char>>, k: nat, j: nat)
    ensures
        k <= j < first_free(base, used, k) ==> used.contains(candidate(base, j)),
        k <= first_free(base, used, k),
    decreases used.len() + 1 - k,
{
    if k <= used.len() && used.contains(candidate(base, k)) {
        lemma_smaller_are_used(base, used, k + 1, j);
    }
}

/// The names are given out in the order of the tools, and each tool is exposed with
/// its server, the server's label, its own name and its format.
pub proof fn law_exposed_tools(tools: Seq<EntryView>, servers: Seq<BindingView>, i: int)
    requires
        0 <= i < tools.len(),
    ensures
        ({
            let exposed = exposed_tools(tools, servers);
            let n = tools.len() as int;
            &&& exposed.len() == tools.len()
            &&& exposed[i].exposed_name == free_name(
                base_name(tools, servers, tools[i].name),
                exposed_names(tools, servers, n).take(i),
            )
            &&& exposed[i].exposed_name == exposed_names(tools, servers, n)[i]
            &&& exposed[i].server_key == tools[i].name.0
            &&& exposed[i].server_label == label_of(servers, tools[i].name.0)
            &&& exposed[i].resolved_tool_name == tools[i].name.1
            &&& exposed[i].response_format == tools[i].response_format
        }),
{
    lemma_names_stay(tools, servers, i, tools.len() as int);
}

proof fn lemma_names_stay(tools: Seq<EntryView>, servers: Seq<BindingView>, i: int, n: int)
    requires
        0 <= i < n,
    ensures
        exposed_names(tools, servers, n).len() == n,
        exposed_names(tools, servers, n).take(i) == exposed_names(tools, servers, i),
        exposed_names(tools, servers, n)[i] == free_name(
            base_name(tools, servers, tools[i].name),
            exposed_names(tools, servers, i),
        ),
    decreases n,
{
    lemma_names_count(tools, servers, n);
    lemma_names_count(tools, servers, i);
    lemma_names_count(tools, servers, n - 1);
    let names = exposed_names(tools, servers, n);
    if i < n - 1 {
        lemma_names_stay(tools, servers, i, n - 1);
        assert(names.take(i) =~= exposed_names(tools, servers, n - 1).take(i));
    } else {
        assert(names.take(i) =~= exposed_names(tools, servers, i));
    }
}

proof fn lemma_names_count(tools: Seq<EntryView>, servers: Seq<BindingView>, n: int)
    requires
        0 <= n,
    ensures
        exposed_names(tools, servers, n).len() == n,
    decreases n,
{
    if n > 0 {
        lemma_names_count(tools, servers, n - 1);
    }
}

/// A name finds the first tool that is exposed under it.
pub proof fn law_exposed_name_is_found(exposed: Seq<ExposedView>, name: Seq<char>, j: int)
    ensures
        0 <= j < exposed.len() && exposed[j].exposed_name == name && (forall|k: int|
            0 <= k < j ==> (#[trigger] exposed[k]).exposed_name != name) ==> exposed_get(
            exposed,
            name,
        ) == Some(exposed[j]),
        (forall|k: int| 0 <= k < exposed.len() ==> (#[trigger] exposed[k]).exposed_name != name)
            ==> exposed_get(exposed, name) is None,
        exposed_get(exposed, name) matches Some(e) ==> e.exposed_name == name && exposed.contains(
            e,
        ),
{
    lemma_exposed_index(exposed, name, 0, j);
}

proof fn lemma_exposed_index(exposed: Seq<ExposedView>, name: Seq<char>, from: int, j: int)
    requires
        0 <= from <= exposed.len(),
    ensures
        from <= exposed_index(exposed, name, from) <= exposed.len(),
        exposed_index(exposed, name, from) < exposed.len() ==> exposed[exposed_index(
            exposed,
            name,
            from,
        )].exposed_name == name,
        from <= j < exposed.len() && exposed[j].exposed_name == name && (forall|k: int|
            from <= k < j ==> (#[trigger] exposed[k]).exposed_name != name) ==> exposed_index(
            exposed,
            name,
            from,
        ) == j,
        (forall|k: int| from <= k < exposed.len() ==> (#[trigger] exposed[k]).exposed_name != name)
            ==> exposed_index(exposed, name, from) == exposed.len(),
    decreases exposed.len() - from,
{
    if from < exposed.len() {
        lemma_exposed_index(exposed, name, from + 1, j);
        assert(exposed[from] == exposed[from]);
    }
}

/// What a session knows of an exposed name: the format of its results and whether
/// its server is internal. Of other names it knows nothing: their results pass
/// through, and they are not internal.
pub proof fn law_what_a_session_knows(session: McpToolSession<'_>, name: Seq<char>, i: int)
    ensures
        exposed_get(exposed_views(session.exposed@), name) matches Some(e) ==> {
            &&& session.format_of(name) == e.response_format
            &&& session.tool_is_internal(name) == is_internal_server(
                session.orchestrator@.records,
                session.orchestrator.config.servers@,
                e.server_key,
            )
        },
        exposed_get(exposed_views(session.exposed@), name) is None ==> {
            &&& session.format_of(name) == ResponseFormat::Passthrough
            &&& !session.tool_is_internal(name)
        },
        0 <= i < session.all_mcp_servers@.len() && session.all_mcp_servers@[i].label@ == name
            && is_internal_server(
            session.orchestrator@.records,
            session.orchestrator.config.servers@,
            session.all_mcp_servers@[i].server_key@,
        ) ==> session.label_is_internal(name),
        session.label_is_internal(name) ==> exists|j: int|
            0 <= j < session.all_mcp_servers@.len() && (#[trigger] session.all_mcp_servers@[j]).label@
                == name && is_internal_server(
                session.orchestrator@.records,
                session.orchestrator.config.servers@,
                session.all_mcp_servers@[j].server_key@,
            ),
        not_exposed_text(name) == "Tool '"@ + name + "' is not in this session's exposed tool map"@,
{
}

/// Where a tool is not known, the label is that of the first server, or `mcp`.
pub proof fn law_label_without_a_tool(servers: Seq<BindingView>)
    ensures
        servers.len() > 0 ==> fallback_label(servers) == servers[0].label,
        servers.len() == 0 ==> fallback_label(servers) == "mcp"@,
{
}

// ---------------------------------------------------------------------------
// The inventory
// ---------------------------------------------------------------------------

/// The format that a configuration names is the format of the results.
pub proof fn law_configured_format(config: ResponseFormatConfig)
    ensures
        config is Passthrough ==> ResponseFormat::of(config) is Passthrough,
        config is WebSearchCall ==> ResponseFormat::of(config) is WebSearchCall,
        config is CodeInterpreterCall ==> ResponseFormat::of(config) is CodeInterpreterCall,
        config is FileSearchCall ==> ResponseFormat::of(config) is FileSearchCall,
{
}

/// A qualified name finds the tool of that name, and nothing where there is none.
pub proof fn law_tool_is_found(tools: Seq<EntryView>, name: NameView, i: int)
    ensures
        tool_get(tools, name) matches Some(e) ==> e.name == name && tools.contains(e),
        0 <= i < tools.len() && tools[i].name == name ==> tool_get(tools, name) is Some,
        0 <= i < tools.len() && tools[i].name == name && names_distinct(tools) ==> tool_get(
            tools,
            name,
        ) == Some(tools[i]),
        qualified_text(name.0, name.1) == name.0 + ":"@ + name.1,
{
    lemma_tool_index(tools, name, 0);
}

/// A tool that a server offers is found under the server and its name, as the
/// server describes it: its results pass through, and it stands for itself. The
/// tools of other names stay.
pub proof fn law_offered_tool_is_found(
    tools: Seq<EntryView>,
    server: Seq<char>,
    offered: Seq<ToolView>,
    tool: ToolView,
    category: ToolCategory,
    other: NameView,
)
    ensures
        with_server_tools(tools, server, Seq::empty(), category) == tools,
        ({
            let before = with_server_tools(tools, server, offered, category);
            let after = with_server_tools(tools, server, offered.push(tool), category);
            &&& tool_get(after, (server, tool.name)) matches Some(e) && e.name == (
                server,
                tool.name,
            ) && e.tool == tool && e.response_format == ResponseFormat::Passthrough
                && e.alias is None && e.category == category
            &&& other != (server, tool.name) ==> tool_get(after, other) == tool_get(before, other)
        }),
{
    assert(offered.push(tool).drop_last() =~= offered);
    let before = with_server_tools(tools, server, offered, category);
    law_inventory_put(before, server_entry(server, tool, category), other);
}

/// Setting the format of a tool changes its format and nothing else.
pub proof fn law_format_is_set(
    tools: Seq<EntryView>,
    name: NameView,
    format: ResponseFormat,
    other: NameView,
)
    ensures
        tool_get(tools, name) is None ==> formatted(tools, name, format) == tools,
        tool_get(tools, name) matches Some(e) ==> (tool_get(
            formatted(tools, name, format),
            name,
        ) matches Some(f) && f.response_format == format && f.tool == e.tool && f.alias == e.alias
            && f.category == e.category),
        other != name ==> tool_get(formatted(tools, name, format), other) == tool_get(tools, other),
{
    lemma_tool_index(tools, name, 0);
    if tool_get(tools, name) is Some {
        let e = tool_get(tools, name)->0;
        law_inventory_put(tools, EntryView { response_format: format, ..e }, other);
    }
}

/// An alias stands for the tool for which it was registered last; other aliases
/// stay.
pub proof fn law_last_alias_wins(
    aliases: Seq<(Seq<char>, NameView)>,
    alias: Seq<char>,
    target: NameView,
    other: Seq<char>,
)
    ensures
        alias_get(seq![(alias, target)] + aliases, alias, 0) == Some(target),
        other != alias ==> alias_get(seq![(alias, target)] + aliases, other, 0) == alias_get(
            aliases,
            other,
            0,
        ),
        alias_get(Seq::empty(), alias, 0) is None,
{
    let all = seq![(alias, target)] + aliases;
    assert(all[0] == (alias, target));
    if other != alias {
        lemma_alias_behind(aliases, (alias, target), other, 0);
    }
}

proof fn lemma_alias_behind(
    aliases: Seq<(Seq<char>, NameView)>,
    first: (Seq<char>, NameView),
    other: Seq<char>,
    from: int,
)
    requires
        0 <= from <= aliases.len(),
    ensures
        alias_get(seq![first] + aliases, other, from + 1) == alias_get(aliases, other, from),
    decreases aliases.len() - from,
{
    let all = seq![first] + aliases;
    if from < aliases.len() {
        assert(all[from + 1] == aliases[from]);
        lemma_alias_behind(aliases, first, other, from + 1);
    }
}

/// A prompt or resource that a server offers is kept with its server, in place of
/// the one of its name; the others stay.
pub proof fn law_offer_is_kept(
    list: Seq<OfferView>,
    server: Seq<char>,
    offered: Seq<(Seq<char>, JsonView)>,
    offer: (Seq<char>, JsonView),
    x: OfferView,
)
    ensures
        with_offers(list, server, Seq::empty()) == list,
        ({
            let before = with_offers(list, server, offered);
            let after = with_offers(list, server, offered.push(offer));
            &&& exists|i: int|
                0 <= i < after.len() && (#[trigger] after[i]).key == offer.0 && after[i].server
                    == server && after[i].content == offer.1
            &&& x.key != offer.0 ==> (after.contains(x) <==> before.contains(x))
        }),
{
    assert(offered.push(offer).drop_last() =~= offered);
    let before = with_offers(list, server, offered);
    let after = with_offers(list, server, offered.push(offer));
    let at = offer_index(before, offer.0, 0);
    lemma_offer_index(before, offer.0, 0);
    assert(after[at].key == offer.0);
    if x.key != offer.0 {
        if after.contains(x) {
            let j = choose|j: int| 0 <= j < after.len() && after[j] == x;
            assert(j != at);
            assert(before[j] == x);
        }
        if before.contains(x) {
            let j = choose|j: int| 0 <= j < before.len() && before[j] == x;
            assert(j != at);
            assert(after[j] == x);
        }
    }
}

proof fn lemma_offer_index(list: Seq<OfferView>, key: Seq<char>, from: int)
    requires
        0 <= from <= list.len(),
    ensures
        from <= offer_index(list, key, from) <= list.len(),
        offer_index(list, key, from) < list.len() ==> list[offer_index(list, key, from)].key == key,
    decreases list.len() - from,
{
    if from < list.len() && list[from].key != key {
        lemma_offer_index(list, key, from + 1);
    }
}

// ---------------------------------------------------------------------------
// Calls of tools
// ---------------------------------------------------------------------------

/// The record of a call names the call, the tool and its server, and holds the
/// arguments. An answer of the server is its output, and is an error exactly
/// where the server says so; a call that waits for approval, has failed or has no
/// tool is an error, and its message says why.
pub proof fn law_record_of_a_call(
    output: ToolExecutionOutput,
    call_id: Seq<char>,
    tool: Seq<char>,
    arguments: JsonView,
    server: Seq<char>,
    label: Seq<char>,
    entry: Option<EntryView>,
    outcome: CallOutcome,
)
    requires
        records(
            output,
            call_id,
            tool,
            arguments,
            server,
            label,
            resolved_outcome(tool, server, entry, outcome),
        ),
    ensures
        output.call_id@ == call_id,
        output.tool_name@ == tool,
        output.server_key@ == server,
        output.server_label@ == label,
        output.arguments_str@ == text_of_json(arguments),
        entry matches Some(e) ==> output.response_format == e.response_format,
        entry is None ==> {
            let message = "Tool '"@ + tool + "' not found on server '"@ + server + "'"@;
            &&& output.response_format == ResponseFormat::Passthrough
            &&& output.is_error
            &&& opt_view(output.error_message) == Some(message)
            &&& output.output@.get_text("error"@) == Some(message)
        },
        entry is Some ==> match outcome {
            CallOutcome::Answered { content, is_error } => {
                &&& output.output@ == content@
                &&& output.is_error == (is_error == Some(true))
                &&& output.error_message is None
            },
            CallOutcome::PendingApproval => {
                let message = "Tool requires approval (not supported in this context)"@;
                &&& output.is_error
                &&& opt_view(output.error_message) == Some(message)
                &&& output.output@.get_text("error"@) == Some(message)
            },
            CallOutcome::Failed(e) => {
                let message = "Tool call failed: "@ + e@;
                &&& output.is_error
                &&& opt_view(output.error_message) == Some(message)
                &&& output.output@.get_text("error"@) == Some(message)
            },
        },
{
    crate::laws::calls::law_error_object(
        "Tool '"@ + tool + "' not found on server '"@ + server + "'"@,
    );
    crate::laws::calls::law_error_object(
        "Tool requires approval (not supported in this context)"@,
    );
    if let CallOutcome::Failed(e) = outcome {
        crate::laws::calls::law_error_object("Tool call failed: "@ + e@);
    }
}

/// A default counts where the argument is missing, and only there: the first one
/// for its name.
pub proof fn law_defaults(args: JsonView, defaults: Seq<(Seq<char>, JsonView)>, key: Seq<char>)
    requires
        args is Object,
    ensures
        with_defaults(args, defaults) is Object,
        with_defaults(args, defaults).get(key) == (if args.get(key) is Some {
            args.get(key)
        } else {
            entry_get(defaults, key)
        }),
    decreases defaults.len(),
{
    if defaults.len() > 0 {
        let rest = defaults.drop_last();
        law_defaults(args, rest, key);
        law_defaults(args, rest, defaults.last().0);
        assert(rest.push(defaults.last()) =~= defaults);
        law_appended_entry(rest, defaults.last(), key);
        law_appended_entry(rest, defaults.last(), defaults.last().0);
    } else {
        crate::laws::objects::law_unlisted_entry(defaults, key);
    }
}

/// Renames are made in their order; one whose argument is missing does nothing.
pub proof fn law_renames_in_order(args: JsonView, renames: Seq<Pair>, rename: Pair)
    ensures
        with_renames(args, Seq::empty()) == args,
        with_renames(args, renames.push(rename)) == renamed(
            with_renames(args, renames),
            rename.0,
            rename.1,
        ),
        args.get(rename.0) is None ==> renamed(args, rename.0, rename.1) == args,
{
    assert(renames.push(rename).drop_last() =~= renames);
}

/// The arguments of an alias are renamed first; defaults fill what is missing then.
pub proof fn law_mapped_arguments(args: JsonView, mapping: MappingView, key: Seq<char>)
    requires
        with_renames(args, mapping.renames) is Object,
    ensures
        ({
            let moved = with_renames(args, mapping.renames);
            mapped(args, mapping).get(key) == (if moved.get(key) is Some {
                moved.get(key)
            } else {
                entry_get(mapping.defaults, key)
            })
        }),
{
    law_defaults(with_renames(args, mapping.renames), mapping.defaults, key);
}

/// A call goes to the tool that the entry stands for, with the arguments mapped
/// where the alias says how.
pub proof fn law_call_goes_to_the_target(entry: EntryView, args: JsonView)
    ensures
        entry.alias is None ==> call_target(entry) == entry.name && alias_arguments(entry, args)
            == args,
        entry.alias matches Some(alias) ==> {
            &&& call_target(entry) == alias.target
            &&& alias.arg_mapping is None ==> alias_arguments(entry, args) == args
            &&& alias.arg_mapping matches Some(mapping) ==> alias_arguments(entry, args) == mapped(
                args,
                mapping,
            )
        },
{
}

/// An argument wants a number where the schema gives its property the type
/// `number` or `integer`.
pub proof fn law_wanted_numbers(schema: JsonView, key: Seq<char>)
    ensures
        wants_number(schema, key) <==> {
            &&& schema.get("properties"@) matches Some(properties)
            &&& properties.get(key) matches Some(property)
            &&& property.get_text("type"@) == Some("number"@) || property.get_text("type"@) == Some(
                "integer"@,
            )
        },
{
}

/// An argument is turned into a number where the schema wants one and its text
/// stands for one; every other argument stays, and so do the names.
pub proof fn law_arguments_become_numbers(
    schema: JsonView,
    numbers: Seq<(Seq<char>, JsonView)>,
    args: JsonView,
    i: int,
)
    ensures
        !(args is Object) ==> coerced(schema, numbers, args) == args,
        args matches JsonView::Object(entries) ==> (coerced(
            schema,
            numbers,
            args,
        ) matches JsonView::Object(after) && after.len() == entries.len() && (0 <= i
            < entries.len() ==> {
            &&& after[i].0 == entries[i].0
            &&& after[i].1 == (match entries[i].1 {
                JsonView::Text(s) => if wants_number(schema, entries[i].0) && entry_get(
                    numbers,
                    s,
                ) is Some {
                    entry_get(numbers, s)->0
                } else {
                    entries[i].1
                },
                other => other,
            })
        })),
{
}

/// The texts that may stand for numbers are those of the arguments that want one,
/// in their order.
pub proof fn law_texts_for_numbers(
    schema: JsonView,
    entries: Seq<(Seq<char>, JsonView)>,
    entry: (Seq<char>, JsonView),
)
    ensures
        numeric_texts_of(schema, Seq::empty()).len() == 0,
        numeric_texts_of(schema, entries.push(entry)) == (match entry.1 {
            JsonView::Text(s) => if wants_number(schema, entry.0) {
                numeric_texts_of(schema, entries).push(s)
            } else {
                numeric_texts_of(schema, entries)
            },
            _ => numeric_texts_of(schema, entries),
        }),
{
    assert(entries.push(entry).drop_last() =~= entries);
}

/// A request names the tool, and holds the arguments where they are an object.
pub proof fn law_request_to_a_server(request: CallRequest, tool: Seq<char>, args: JsonView)
    requires
        requests(request, tool, args),
    ensures
        request.name@ == tool,
        args matches JsonView::Object(entries) ==> request.arguments is Some && entry_views(
            request.arguments->0@,
        ) == entries,
        !(args is Object) ==> request.arguments is None,
{
}

/// A transport that is closed or cannot send is a lost connection; any other
/// failure is one of the call, with its message.
pub proof fn law_failure_of_a_call(server: Seq<char>, failure: CallFailure)
    ensures
        failure is TransportClosed || failure is TransportSend ==> call_error_view(server, failure)
            == ErrorView::ServerDisconnected(server),
        failure matches CallFailure::Other(e) ==> call_error_view(server, failure)
            == ErrorView::ToolExecution("MCP call failed: "@ + e@),
{
}

} // verus!

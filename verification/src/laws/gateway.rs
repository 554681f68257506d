//! Laws of the servers of the gateway, of approval and of the course of a call.

use vstd::prelude::*;

use crate::approval::{
    asks_for, decision_step, step_after_outcome, ApprovalDecision, ApprovalMode, ApprovalOutcome,
    McpApprovalRequest, StepView,
};
use crate::assoc::lookup;
use crate::calling::{
    after_failure, delay_after, fits, next_step, ActionView, CallEvent, CallPhase, Surroundings,
};
use crate::config::{BuiltinToolType, McpConfig, McpServerConfig, McpTransport, ToolConfig};
use crate::error::{error_message, ErrorView, McpError};
use crate::inventory::{
    formatted, law_inventory_clear, law_inventory_put, names_distinct, opt_annotations, tool_get,
    with_offers, with_server_tools, without_server, AliasView, EntryView, InventoryView,
    MappingView, NameView, ResponseFormat, ToolCategory, ToolView,
};
use crate::json::entry_views;
use crate::laws::tools::{law_format_is_set, law_offered_tool_is_found};
use crate::orchestrator::{
    after_connect, after_dynamic, after_startup, alias_name, all_configured, builtin_server,
    config_index, config_mapping, configured, connection_view, first_builtin_record,
    is_builtin_server, is_internal_server, pool_capacity, record_index, record_of, records_match,
    server_key_of, step_of_shutdown, tool_settings, with_alias, with_builtin_format,
    with_connected, with_tool_configs, without_record, ConnectionView, DynamicStep,
    McpOrchestrator, OrchestratorView, RecordView, ShutdownStep, StaticConnection,
};
use crate::order::pair_list;
use crate::pool::{pooled, KeyView};
use crate::text::{joined, views};

verus! {

broadcast use vstd::string::group_string_axioms;

// ---------------------------------------------------------------------------
// Tools of connected servers
// ---------------------------------------------------------------------------

/// The tools that a server offers are found, each as the server describes it last;
/// of other names nothing changes.
pub proof fn law_offered_tools_are_found(
    tools: Seq<EntryView>,
    server: Seq<char>,
    offered: Seq<ToolView>,
    category: ToolCategory,
    i: int,
    name: NameView,
)
    ensures
        ({
            let after = with_server_tools(tools, server, offered, category);
            &&& 0 <= i < offered.len() && (forall|j: int|
                i < j < offered.len() ==> (#[trigger] offered[j]).name != offered[i].name) ==> (
            tool_get(after, (server, offered[i].name)) matches Some(e) && e.tool == offered[i]
                && e.category == category && e.alias is None && e.response_format
                == ResponseFormat::Passthrough)
            &&& (name.0 != server || (forall|j: int|
                0 <= j < offered.len() ==> (#[trigger] offered[j]).name != name.1)) ==> tool_get(
                after,
                name,
            ) == tool_get(tools, name)
        }),
    decreases offered.len(),
{
    if offered.len() > 0 {
        let rest = offered.drop_last();
        law_offered_tools_are_found(tools, server, rest, category, i, name);
        assert(rest.push(offered.last()) =~= offered);
        law_offered_tool_is_found(tools, server, rest, offered.last(), category, name);
        if 0 <= i < rest.len() {
            law_offered_tool_is_found(
                tools,
                server,
                rest,
                offered.last(),
                category,
                (server, offered[i].name),
            );
            assert(offered[offered.len() - 1] == offered.last());
            if forall|j: int|
                i < j < offered.len() ==> (#[trigger] offered[j]).name != offered[i].name {
                assert forall|j: int| i < j < rest.len() implies (#[trigger] rest[j]).name
                    != rest[i].name by {
                    assert(rest[j] == offered[j]);
                }
            }
        }
        if forall|j: int| 0 <= j < offered.len() ==> (#[trigger] offered[j]).name != name.1 {
            assert forall|j: int| 0 <= j < rest.len() implies (#[trigger] rest[j]).name
                != name.1 by {
                assert(rest[j] == offered[j]);
            }
            assert(offered[offered.len() - 1].name != name.1);
        }
    }
}

/// An alias is a tool of its own that describes itself as its target does and
/// stands for it, with the arguments and the format that the settings say. Other
/// tools, and the prompts and resources, stay.
pub proof fn law_alias_is_registered(
    inventory: InventoryView,
    alias: Seq<char>,
    target: EntryView,
    name: NameView,
    mapping: Option<MappingView>,
    format: ResponseFormat,
    other: NameView,
)
    ensures
        ({
            let after = with_alias(inventory, alias, target, name, mapping, format);
            &&& tool_get(after.tools, ("alias"@, alias)) matches Some(e) && e.tool == target.tool
                && e.response_format == format && e.category == ToolCategory::Static && (
            e.alias matches Some(a) && a.target == name && a.arg_mapping == mapping)
            &&& other != ("alias"@, alias) ==> tool_get(after.tools, other) == tool_get(
                inventory.tools,
                other,
            )
            &&& after.aliases == seq![(alias, name)] + inventory.aliases
            &&& after.prompts == inventory.prompts
            &&& after.resources == inventory.resources
        }),
{
    law_inventory_put(
        inventory.tools,
        EntryView {
            name: alias_name(alias),
            tool: target.tool,
            response_format: format,
            alias: Some(AliasView { target: name, arg_mapping: mapping }),
            category: ToolCategory::Static,
        },
        other,
    );
}

/// The settings of a tool apply where the server has the tool: an alias is
/// registered where they name one; else the format is set where it is not the
/// plain one.
pub proof fn law_settings_of_a_tool(
    inventory: InventoryView,
    server: Seq<char>,
    tool: Seq<char>,
    config: ToolConfig,
)
    ensures
        ({
            let after = configured(inventory, server, tool, config);
            let format = ResponseFormat::of(config.response_format);
            match tool_get(inventory.tools, (server, tool)) {
                None => after == inventory,
                Some(target) => match config.alias {
                    Some(alias) => after == with_alias(
                        inventory,
                        alias@,
                        target,
                        (server, tool),
                        match config.arg_mapping {
                            Some(m) => Some(
                                MappingView {
                                    renames: pair_list(m.renames@),
                                    defaults: entry_views(m.defaults@),
                                },
                            ),
                            None => None,
                        },
                        format,
                    ),
                    None => {
                        &&& format is Passthrough ==> after == inventory
                        &&& !(format is Passthrough) ==> (tool_get(
                            after.tools,
                            (server, tool),
                        ) matches Some(e) && e.response_format == format && e.tool == target.tool)
                        &&& after.aliases == inventory.aliases
                    },
                },
            }
        }),
{
    law_format_is_set(
        inventory.tools,
        (server, tool),
        ResponseFormat::of(config.response_format),
        (server, tool),
    );
}

/// The settings of the tools of a server are applied in their order.
pub proof fn law_settings_in_order(
    inventory: InventoryView,
    server: Seq<char>,
    tools: Seq<(String, ToolConfig)>,
    entry: (String, ToolConfig),
)
    ensures
        all_configured(inventory, server, Seq::empty()) == inventory,
        all_configured(inventory, server, tools.push(entry)) == configured(
            all_configured(inventory, server, tools),
            server,
            entry.0@,
            entry.1,
        ),
{
    assert(tools.push(entry).drop_last() =~= tools);
}

/// Whether two lookups give the same tool, whatever its format.
spec fn same_tool(a: Option<EntryView>, b: Option<EntryView>) -> bool {
    match (a, b) {
        (Some(x), Some(y)) => x.tool == y.tool && x.alias == y.alias && x.category == y.category
            && x.name == y.name,
        (None, None) => true,
        _ => false,
    }
}

proof fn lemma_configured_keeps(
    inventory: InventoryView,
    server: Seq<char>,
    tool: Seq<char>,
    config: ToolConfig,
    name: NameView,
)
    requires
        name.0 != "alias"@,
    ensures
        ({
            let after = configured(inventory, server, tool, config);
            &&& same_tool(tool_get(after.tools, name), tool_get(inventory.tools, name))
            &&& name.0 != server ==> tool_get(after.tools, name) == tool_get(inventory.tools, name)
            &&& after.prompts == inventory.prompts
            &&& after.resources == inventory.resources
        }),
{
    let format = ResponseFormat::of(config.response_format);
    crate::laws::tools::law_tool_is_found(inventory.tools, name, 0);
    if let Some(target) = tool_get(inventory.tools, (server, tool)) {
        if let Some(alias) = config.alias {
            law_alias_is_registered(
                inventory,
                alias@,
                target,
                (server, tool),
                config_mapping(config),
                format,
                name,
            );
        } else {
            law_format_is_set(inventory.tools, (server, tool), format, name);
            crate::laws::tools::law_tool_is_found(
                formatted(inventory.tools, (server, tool), format),
                name,
                0,
            );
        }
    }
}

proof fn lemma_all_configured_keeps(
    inventory: InventoryView,
    server: Seq<char>,
    tools: Seq<(String, ToolConfig)>,
    name: NameView,
)
    requires
        name.0 != "alias"@,
    ensures
        ({
            let after = all_configured(inventory, server, tools);
            &&& same_tool(tool_get(after.tools, name), tool_get(inventory.tools, name))
            &&& name.0 != server ==> tool_get(after.tools, name) == tool_get(inventory.tools, name)
            &&& after.prompts == inventory.prompts
            &&& after.resources == inventory.resources
        }),
    decreases tools.len(),
{
    if tools.len() > 0 {
        lemma_all_configured_keeps(inventory, server, tools.drop_last(), name);
        lemma_configured_keeps(
            all_configured(inventory, server, tools.drop_last()),
            server,
            tools.last().0@,
            tools.last().1,
            name,
        );
    }
}

/// When a server was connected, the tools that it offers are found under its name,
/// as it describes them, and those that it offered before and does not offer any
/// more are gone. The tools of other servers stay. Its prompts and resources are
/// kept with it.
pub proof fn law_connected_server_brings_its_tools(
    inventory: InventoryView,
    config: McpServerConfig,
    connection: ConnectionView,
    i: int,
    name: NameView,
)
    requires
        names_distinct(inventory.tools),
        config.name@ != "alias"@,
        name.0 != "alias"@,
    ensures
        ({
            let after = with_connected(inventory, config, connection);
            &&& connection.tools matches Some(offered) ==> 0 <= i < offered.len() && (forall|j: int|
                i < j < offered.len() ==> (#[trigger] offered[j]).name != offered[i].name) ==> (
            tool_get(after.tools, (config.name@, offered[i].name)) matches Some(e) && e.tool
                == offered[i] && e.category == ToolCategory::Static && e.alias is None)
            &&& name.0 == config.name@ && (connection.tools is None || forall|j: int|
                0 <= j < connection.tools->0.len() ==> (#[trigger] connection.tools->0[j]).name
                    != name.1) ==> tool_get(after.tools, name) is None
            &&& name.0 != config.name@ ==> tool_get(after.tools, name) == tool_get(
                inventory.tools,
                name,
            )
            &&& after.prompts == (match connection.prompts {
                Some(list) => with_offers(inventory.prompts, config.name@, list),
                None => inventory.prompts,
            })
            &&& after.resources == (match connection.resources {
                Some(list) => with_offers(inventory.resources, config.name@, list),
                None => inventory.resources,
            })
        }),
{
    let server = config.name@;
    let cleared = without_server(inventory.tools, server);
    law_inventory_clear(inventory.tools, server, name);
    let tools = match connection.tools {
        Some(list) => with_server_tools(cleared, server, list, ToolCategory::Static),
        None => cleared,
    };
    let loaded = InventoryView {
        tools,
        prompts: match connection.prompts {
            Some(list) => with_offers(inventory.prompts, server, list),
            None => inventory.prompts,
        },
        resources: match connection.resources {
            Some(list) => with_offers(inventory.resources, server, list),
            None => inventory.resources,
        },
        ..inventory
    };
    if let Some(list) = connection.tools {
        law_offered_tools_are_found(cleared, server, list, ToolCategory::Static, i, name);
    }
    lemma_settings_keep(loaded, config, name);
    if connection.tools is Some && 0 <= i < connection.tools->0.len() {
        lemma_settings_keep(loaded, config, (server, connection.tools->0[i].name));
    }
}

proof fn lemma_settings_keep(inventory: InventoryView, config: McpServerConfig, name: NameView)
    requires
        name.0 != "alias"@,
    ensures
        ({
            let after = with_builtin_format(with_tool_configs(inventory, config), config);
            &&& same_tool(tool_get(after.tools, name), tool_get(inventory.tools, name))
            &&& name.0 != config.name@ ==> tool_get(after.tools, name) == tool_get(
                inventory.tools,
                name,
            )
            &&& after.prompts == inventory.prompts
            &&& after.resources == inventory.resources
        }),
{
    let set = with_tool_configs(inventory, config);
    if let Some(tools) = config.tools {
        lemma_all_configured_keeps(inventory, config.name@, tools@, name);
    } else {
        crate::laws::tools::law_tool_is_found(inventory.tools, name, 0);
    }
    crate::laws::tools::law_tool_is_found(set.tools, name, 0);
    if let (Some(t), Some(tool)) = (config.builtin_type, config.builtin_tool_name) {
        let format = ResponseFormat::of(t.format());
        law_format_is_set(set.tools, (config.name@, tool@), format, name);
        crate::laws::tools::law_tool_is_found(
            formatted(set.tools, (config.name@, tool@), format),
            name,
            0,
        );
    }
}

/// A server that is connected already stays as it is; one that could not be
/// connected changes nothing and the error is told; one that was connected has its
/// client, its record and its tools, and the other servers stay.
pub proof fn law_connecting_a_server(
    state: OrchestratorView,
    config: McpServerConfig,
    connection: Result<ConnectionView, ErrorView>,
    name: Seq<char>,
)
    ensures
        ({
            let after = after_connect(state, config, connection);
            let known = state.clients.contains_key(config.name@);
            &&& known ==> after.0 == state && after.1 is Ok
            &&& !known ==> match connection {
                Err(e) => after.0 == state && after.1 == Err::<(), ErrorView>(e),
                Ok(c) => {
                    &&& after.1 is Ok
                    &&& after.0.clients.contains_key(config.name@)
                    &&& after.0.clients[config.name@] == c.client
                    &&& name != config.name@ ==> (after.0.clients.contains_key(name)
                        == state.clients.contains_key(name)) && (state.clients.contains_key(name)
                        ==> after.0.clients[name] == state.clients[name])
                    &&& after.0.records.len() == state.records.len() + 1
                    &&& after.0.records.drop_last() == state.records
                    &&& after.0.records.last().name == config.name@
                    &&& after.0.records.last().internal == config.internal
                    &&& after.0.records.last().has_builtin_type == (config.builtin_type is Some)
                    &&& after.0.inventory == with_connected(state.inventory, config, c)
                },
            }
        }),
{
    let after = after_connect(state, config, connection);
    if after.0.records.len() == state.records.len() + 1 {
        assert(after.0.records.drop_last() =~= state.records);
    }
}

/// The built-in tool of a server is there where it names both the type and the
/// tool; its format is that of the tool's settings, or else that of the type.
pub proof fn law_builtin_tool_of_a_server(config: McpServerConfig)
    ensures
        record_of(config).name == config.name@,
        record_of(config).internal == config.internal,
        record_of(config).has_builtin_type == (config.builtin_type is Some),
        config.builtin_type is None || config.builtin_tool_name is None ==> record_of(
            config,
        ).builtin is None,
        config.builtin_type matches Some(t) ==> (config.builtin_tool_name matches Some(tool) ==> (
        record_of(config).builtin matches Some(b) && b.0 == t && b.1 == tool@ && (match
        tool_settings(config, tool@) {
            Some(settings) => b.2 == ResponseFormat::of(settings.response_format),
            None => match t {
                BuiltinToolType::WebSearchPreview => b.2 is WebSearchCall,
                BuiltinToolType::CodeInterpreter => b.2 is CodeInterpreterCall,
                BuiltinToolType::FileSearch => b.2 is FileSearchCall,
            },
        }))),
{
}

/// The settings of a tool are those under its name.
pub proof fn law_settings_are_found(config: McpServerConfig, tool: Seq<char>)
    ensures
        config.tools is None ==> tool_settings(config, tool) is None,
        config.tools matches Some(tools) ==> tool_settings(config, tool) == lookup(tools@, tool),
{
}

/// At startup the servers are connected in their order. One that could not be
/// connected ends the startup where it is required, and is left out otherwise.
pub proof fn law_startup_in_order(
    state: OrchestratorView,
    servers: Seq<McpServerConfig>,
    connections: Seq<Result<StaticConnection, McpError>>,
    from: int,
)
    requires
        0 <= from < servers.len(),
    ensures
        after_startup(state, servers, connections, servers.len() as int) == Ok::<
            OrchestratorView,
            ErrorView,
        >(state),
        ({
            let known = state.clients.contains_key(servers[from].name@);
            let here = connection_view(connections[from]);
            let all = after_startup(state, servers, connections, from);
            &&& known ==> all == after_startup(state, servers, connections, from + 1)
            &&& !known ==> match here {
                Err(e) => if servers[from].required {
                    all == Err::<OrchestratorView, ErrorView>(e)
                } else {
                    all == after_startup(state, servers, connections, from + 1)
                },
                Ok(c) => all == after_startup(
                    after_connect(state, servers[from], Ok(c)).0,
                    servers,
                    connections,
                    from + 1,
                ),
            }
        }),
{
}

/// The pool holds as many connections as the configuration says, and at least one.
pub proof fn law_size_of_the_pool(config: McpConfig)
    ensures
        config.pool.max_connections > 0 ==> pool_capacity(config) == config.pool.max_connections,
        config.pool.max_connections == 0 ==> pool_capacity(config) == 1,
{
}

/// The record of a server that was disconnected is gone, and the others stay.
pub proof fn law_record_is_gone(
    records: Seq<RecordView>,
    clients: Map<Seq<char>, u64>,
    name: Seq<char>,
    x: RecordView,
)
    requires
        records_match(records, clients),
    ensures
        without_record(records, name).contains(x) <==> records.contains(x) && x.name != name,
{
    lemma_record_at(records, name, 0);
    let at = record_index(records, name, 0);
    let after = without_record(records, name);
    if after.contains(x) {
        let j = choose|j: int| 0 <= j < after.len() && after[j] == x;
        if at < records.len() {
            let k = if j < at {
                j
            } else {
                j + 1
            };
            assert(records[k] == x);
            assert(records[at].name == name);
        } else {
            assert(records[j] == x);
        }
    }
    if records.contains(x) && x.name != name {
        let k = choose|k: int| 0 <= k < records.len() && records[k] == x;
        if at < records.len() {
            assert(k != at);
            if k < at {
                assert(after[k] == x);
            } else {
                assert(after[k - 1] == x);
            }
        } else {
            assert(after[k] == x);
        }
    }
}

proof fn lemma_record_at(records: Seq<RecordView>, name: Seq<char>, from: int)
    requires
        0 <= from <= records.len(),
    ensures
        from <= record_index(records, name, from) <= records.len(),
        record_index(records, name, from) < records.len() ==> records[record_index(
            records,
            name,
            from,
        )].name == name,
        forall|j: int|
            from <= j < record_index(records, name, from) ==> (#[trigger] records[j]).name != name,
    decreases records.len() - from,
{
    if from < records.len() && records[from].name != name {
        lemma_record_at(records, name, from + 1);
    }
}

/// The server of a pooled connection.
pub open spec fn server_of(entry: Option<(KeyView, u64)>) -> Option<Seq<char>> {
    match entry {
        Some((key, client)) => Some(key.0),
        None => None,
    }
}

/// A server that a request brought along has the tools that it offers; the tools
/// of the server whose connection had to give way are gone. Everything else stays.
pub proof fn law_dynamic_server_brings_its_tools(
    inventory: InventoryView,
    gone: Option<(KeyView, u64)>,
    server: Seq<char>,
    offered: Option<Seq<ToolView>>,
    i: int,
    name: NameView,
)
    requires
        names_distinct(inventory.tools),
    ensures
        ({
            let after = after_dynamic(inventory, gone, server, offered);
            let is_offered = name.0 == server && offered is Some && exists|j: int|
                0 <= j < offered->0.len() && (#[trigger] offered->0[j]).name == name.1;
            &&& offered matches Some(list) ==> 0 <= i < list.len() && (forall|j: int|
                i < j < list.len() ==> (#[trigger] list[j]).name != list[i].name) ==> (tool_get(
                after.tools,
                (server, list[i].name),
            ) matches Some(e) && e.tool == list[i] && e.category == ToolCategory::Dynamic)
            &&& !is_offered && server_of(gone) == Some(name.0) ==> tool_get(
                after.tools,
                name,
            ) is None
            &&& !is_offered && server_of(gone) != Some(name.0) ==> tool_get(
                after.tools,
                name,
            ) == tool_get(inventory.tools, name)
            &&& after.aliases == inventory.aliases
            &&& after.prompts == inventory.prompts
            &&& after.resources == inventory.resources
        }),
{
    let kept = match gone {
        Some(entry) => without_server(inventory.tools, entry.0.0),
        None => inventory.tools,
    };
    if let Some(entry) = gone {
        law_inventory_clear(inventory.tools, entry.0.0, name);
    }
    if let Some(list) = offered {
        law_offered_tools_are_found(kept, server, list, ToolCategory::Dynamic, i, name);
    }
}

/// The key of a server is its address, or its command line.
pub proof fn law_key_of_a_server(transport: McpTransport)
    ensures
        transport matches McpTransport::Sse { url, .. } ==> server_key_of(transport) == url@,
        transport matches McpTransport::Streamable { url, .. } ==> server_key_of(transport) == url@,
        transport matches McpTransport::Stdio { command, args, .. } ==> server_key_of(transport)
            == command@ + ":"@ + joined(views(args@), " "@),
{
}

/// A connection that is pooled is used again; else one is made.
pub proof fn law_pooled_connection_is_used(
    o: McpOrchestrator,
    step: DynamicStep,
    config: McpServerConfig,
    tenant: Option<Seq<char>>,
)
    requires
        o.is_dynamic_step(step, config, tenant),
    ensures
        ({
            let key = crate::pool::config_key(config.transport, tenant);
            &&& pooled(o.connection_pool.entries(), key) is Some ==> (
            step matches DynamicStep::Connected(url) && url@ == server_key_of(config.transport))
            &&& pooled(o.connection_pool.entries(), key) is None ==> (
            step matches DynamicStep::Connect(k) && k@ == key)
        }),
{
}

// ---------------------------------------------------------------------------
// Built-in and internal servers
// ---------------------------------------------------------------------------

/// The name of the server, its tool and its format, where it handles a built-in
/// type.
pub open spec fn handles(record: RecordView, t: BuiltinToolType) -> Option<
    (Seq<char>, Seq<char>, ResponseFormat),
> {
    match record.builtin {
        Some((kind, tool, format)) => if kind == t {
            Some((record.name, tool, format))
        } else {
            None
        },
        None => None,
    }
}

/// The first server that handles a built-in type is the one that is called for it.
pub proof fn law_first_builtin_server(
    records: Seq<RecordView>,
    t: BuiltinToolType,
    from: int,
    i: int,
)
    requires
        0 <= from <= records.len(),
    ensures
        from <= i < records.len() && handles(records[i], t) is Some && (forall|j: int|
            from <= j < i ==> handles(#[trigger] records[j], t) is None) ==> first_builtin_record(
            records,
            t,
            from,
        ) == handles(records[i], t),
        (forall|j: int| from <= j < records.len() ==> handles(#[trigger] records[j], t) is None)
            ==> first_builtin_record(records, t, from) is None,
    decreases records.len() - from,
{
    if from < records.len() {
        law_first_builtin_server(records, t, from + 1, i);
        assert(records[from] == records[from]);
    }
}

/// A connected server handles a built-in type before one that is only configured.
pub proof fn law_connected_server_comes_first(
    connected: Seq<RecordView>,
    servers: Seq<McpServerConfig>,
    t: BuiltinToolType,
)
    ensures
        first_builtin_record(connected, t, 0) is Some ==> builtin_server(connected, servers, t)
            == first_builtin_record(connected, t, 0),
        first_builtin_record(connected, t, 0) is None ==> builtin_server(connected, servers, t)
            == first_builtin_record(
            Seq::new(servers.len(), |i: int| record_of(servers[i])),
            t,
            0,
        ),
{
}

/// A server is internal, or one of a built-in type, where its record or its
/// configuration says so.
pub proof fn law_internal_and_builtin_servers(
    connected: Seq<RecordView>,
    servers: Seq<McpServerConfig>,
    name: Seq<char>,
    i: int,
)
    ensures
        0 <= i < servers.len() && servers[i].name@ == name && servers[i].internal
            ==> is_internal_server(connected, servers, name),
        0 <= i < connected.len() && connected[i].name == name && connected[i].internal
            ==> is_internal_server(connected, servers, name),
        is_internal_server(connected, servers, name) ==> (exists|j: int|
            0 <= j < connected.len() && (#[trigger] connected[j]).name == name
                && connected[j].internal) || (exists|j: int|
            0 <= j < servers.len() && (#[trigger] servers[j]).name@ == name && servers[j].internal),
        0 <= i < servers.len() && servers[i].name@ == name && servers[i].builtin_type is Some
            ==> is_builtin_server(connected, servers, name),
        0 <= i < connected.len() && connected[i].name == name && connected[i].has_builtin_type
            ==> is_builtin_server(connected, servers, name),
        is_builtin_server(connected, servers, name) ==> (exists|j: int|
            0 <= j < connected.len() && (#[trigger] connected[j]).name == name
                && connected[j].has_builtin_type) || (exists|j: int|
            0 <= j < servers.len() && (#[trigger] servers[j]).name@ == name
                && servers[j].builtin_type is Some),
{
}

/// The configuration of a server is the first one under its name.
pub proof fn law_configuration_of_a_server(
    servers: Seq<McpServerConfig>,
    name: Seq<char>,
    from: int,
    i: int,
)
    requires
        0 <= from <= servers.len(),
    ensures
        from <= config_index(servers, name, from) <= servers.len(),
        from <= i < servers.len() && servers[i].name@ == name && (forall|j: int|
            from <= j < i ==> (#[trigger] servers[j]).name@ != name) ==> config_index(
            servers,
            name,
            from,
        ) == i,
        (forall|j: int| from <= j < servers.len() ==> (#[trigger] servers[j]).name@ != name)
            ==> config_index(servers, name, from) == servers.len(),
    decreases servers.len() - from,
{
    if from < servers.len() {
        law_configuration_of_a_server(servers, name, from + 1, i);
        assert(servers[from] == servers[from]);
    }
}

// ---------------------------------------------------------------------------
// Approval and the course of a call
// ---------------------------------------------------------------------------

/// The user is asked about the tool of the server that is to be called, with what
/// the server says of it.
pub proof fn law_user_is_asked_about_the_tool(
    request: McpApprovalRequest,
    request_id: Seq<char>,
    entry: EntryView,
)
    requires
        asks_for(request, request_id, entry),
    ensures
        request.request_id@ == request_id,
        request.server_key@ == entry.name.0,
        request.tool_name@ == entry.name.1,
        request.elicitation_id@ == "tool-"@ + entry.name.1,
        request.message@ == "Allow execution of '"@ + entry.name.1 + "'?"@,
        opt_annotations(request.hints) == entry.tool.annotations,
{
}

/// A decision of the policy is carried out at once: the tool is called or refused.
/// Where the user is to decide, the client is told so if it can ask them; else the
/// decision is waited for.
pub proof fn law_course_of_an_approval(
    tool: Seq<char>,
    mode: ApprovalMode,
    outcome: ApprovalOutcome,
    decision: ApprovalDecision,
)
    ensures
        outcome matches ApprovalOutcome::Decided { allowed } ==> {
            &&& allowed ==> step_after_outcome(tool, mode, outcome) is Execute
            &&& !allowed ==> step_after_outcome(tool, mode, outcome) == StepView::Refuse(
                ErrorView::ToolDenied(tool),
            )
        },
        outcome is Pending && mode is Interactive ==> step_after_outcome(
            tool,
            mode,
            outcome,
        ) is ReportPending,
        outcome is Pending && mode is PolicyOnly ==> step_after_outcome(
            tool,
            mode,
            outcome,
        ) is AwaitDecision,
        decision is Approved ==> decision_step(Some(decision)) is Execute,
        decision matches ApprovalDecision::Denied { reason } ==> decision_step(Some(decision))
            == StepView::Refuse(ErrorView::ToolDenied(reason@)),
        decision_step(None) == StepView::Refuse(ErrorView::ToolDenied("Channel closed"@)),
{
}

/// The course of a call: it is made once it is approved, its answer is the result,
/// and after a lost connection it is made once more. A refusal, a pending approval
/// and any other failure end it.
pub proof fn law_course_of_a_call(phase: CallPhase, event: CallEvent, at: Surroundings)
    requires
        fits(phase, event),
    ensures
        ({
            let next = next_step(phase, event, at);
            match event {
                CallEvent::Approval(Err(e)) => next == (CallPhase::Over, ActionView::Fail(e@)),
                CallEvent::Approval(Ok(ApprovalOutcome::Decided { allowed })) => if allowed {
                    &&& next.1 is Call
                    &&& next.0 matches CallPhase::Calling { client, again } && !again && client == (
                    if at.clients.contains_key(at.name.0) {
                        Some(at.clients[at.name.0])
                    } else {
                        None
                    })
                } else {
                    next == (
                        CallPhase::Over,
                        ActionView::Fail(ErrorView::ToolDenied(at.name.1)),
                    )
                },
                CallEvent::Approval(Ok(ApprovalOutcome::Pending)) => if at.mode is Interactive {
                    next == (CallPhase::Over, ActionView::ReportPending)
                } else {
                    next == (CallPhase::Waiting, ActionView::AwaitDecision)
                },
                CallEvent::Decision(Some(ApprovalDecision::Approved)) => next.1 is Call && (
                next.0 matches CallPhase::Calling { client, again } && !again),
                CallEvent::Decision(Some(ApprovalDecision::Denied { reason })) => next == (
                    CallPhase::Over,
                    ActionView::Fail(ErrorView::ToolDenied(reason@)),
                ),
                CallEvent::Decision(None) => next.0 is Over && next.1 is Fail,
                CallEvent::Returned(Ok(_)) => next == (CallPhase::Over, ActionView::Answer),
                CallEvent::Returned(Err(e)) => match phase {
                    CallPhase::Calling { client, again } => if again {
                        next == (CallPhase::Over, ActionView::Fail(e@))
                    } else {
                        next == after_failure(client, e@, at)
                    },
                    _ => false,
                },
                CallEvent::Reconnected(Ok(_)) => next.1 is Call && (
                next.0 matches CallPhase::Calling { client, again } && again),
                CallEvent::Reconnected(Err(e)) => next == (
                    CallPhase::Over,
                    ActionView::Fail(e@),
                ),
            }
        }),
{
}

/// After a lost connection the call is made again at once where another client of
/// the server is there already; else the server is connected anew, where it is one
/// of the configuration. Other failures end the call.
pub proof fn law_after_a_failure(client: Option<u64>, error: ErrorView, at: Surroundings, i: int)
    ensures
        error matches ErrorView::ServerDisconnected(name) ==> {
            &&& at.clients.contains_key(name) && client != Some(at.clients[name]) ==> after_failure(
                client,
                error,
                at,
            ).1 is Call
            &&& !at.clients.contains_key(name) || client == Some(at.clients[name]) ==> {
                &&& 0 <= i < at.servers.len() && at.servers[i].name@ == name && (forall|j: int|
                    0 <= j < i ==> (#[trigger] at.servers[j]).name@ != name) ==> after_failure(
                    client,
                    error,
                    at,
                ) == (CallPhase::Reconnecting, ActionView::Reconnect(at.servers[i]))
                &&& (forall|j: int|
                    0 <= j < at.servers.len() ==> (#[trigger] at.servers[j]).name@ != name)
                    ==> after_failure(client, error, at) == (
                    CallPhase::Over,
                    ActionView::Fail(ErrorView::ServerNotFound(name)),
                )
            }
        },
        !(error is ServerDisconnected) ==> after_failure(client, error, at) == (
            CallPhase::Over,
            ActionView::Fail(error),
        ),
{
    if let ErrorView::ServerDisconnected(name) = error {
        law_configuration_of_a_server(at.servers, name, 0, i);
    }
}

/// A server is connected anew at most three times in a row, and the wait between two
/// attempts doubles.
pub proof fn law_waits_between_attempts(attempt: nat)
    ensures
        delay_after(1) == Some(500u64),
        delay_after(2) matches Some(ms) && ms == 2 * delay_after(1)->0,
        attempt >= 3 || attempt == 0 ==> delay_after(attempt) is None,
{
}

/// A shutdown waits for running calls, but not longer than half a minute.
pub proof fn law_shutdown_waits_for_calls(active: nat, elapsed_ms: nat)
    ensures
        active == 0 <==> step_of_shutdown(active, elapsed_ms) is Proceed,
        active > 0 && elapsed_ms < 30000 ==> step_of_shutdown(active, elapsed_ms)
            == ShutdownStep::Wait(100),
        active > 0 && elapsed_ms >= 30000 ==> step_of_shutdown(active, elapsed_ms) is GiveUp,
{
}

/// An event fits the phase in which it can come.
pub proof fn law_events_fit_their_phases(phase: CallPhase, event: CallEvent)
    ensures
        event is Approval ==> (fits(phase, event) <==> phase is Asked),
        event is Decision ==> (fits(phase, event) <==> phase is Waiting),
        event is Returned ==> (fits(phase, event) <==> phase is Calling),
        event is Reconnected ==> (fits(phase, event) <==> phase is Reconnecting),
{
}

/// The message of an error names its kind and ends with its detail.
pub proof fn law_message_of_an_error(error: ErrorView)
    ensures
        error matches ErrorView::Config(s) ==> error_message(error) == "Configuration error: "@ + s,
        error matches ErrorView::Transport(s) ==> error_message(error) == "Transport error: "@ + s,
        error matches ErrorView::ConnectionFailed(s) ==> error_message(error)
            == "Connection failed: "@ + s,
        error matches ErrorView::ToolNotFound(s) ==> error_message(error) == "Tool not found: "@ + s,
        error matches ErrorView::ToolDenied(s) ==> error_message(error) == "Tool denied: "@ + s,
        error matches ErrorView::ServerNotFound(s) ==> error_message(error) == "Server not found: "@
            + s,
        error matches ErrorView::ServerDisconnected(s) ==> error_message(error)
            == "Server disconnected: "@ + s,
        error matches ErrorView::ToolExecution(s) ==> error_message(error)
            == "Tool execution failed: "@ + s,
{
}

} // verus!

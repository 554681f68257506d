//! Coordination of server connections, the tool inventory, approvals and the
//! connection pool.

use vstd::prelude::*;

use crate::approval::ApprovalMode;
use crate::assoc::{get_entry, lookup};
use crate::clients::ClientTable;
use crate::config::{
    error_text, first_error, BuiltinToolType, McpConfig, McpServerConfig, McpTransport, ToolConfig,
};
use crate::error::{ErrorView, McpError};
use crate::execution::{
    record_resolved, records, requests, resolved_outcome, CallOutcome, ToolExecutionInput,
    ToolExecutionOutput,
};
use crate::inventory::{
    empty_inventory, formatted, of_servers, offer_views, offered_views, opt_mapping,
    qualified_text, tool_get, tool_put, tool_views, with_offers, with_server_tools, without_server,
    AliasTarget, AliasView, ArgMapping, EntryView, InventoryView, MappingView, NameView, Offer,
    QualifiedToolName, ResponseFormat, Tool, ToolCategory, ToolEntry, ToolInventory, ToolView,
};
use crate::json::{entry_views, JsonView};
use crate::order::{ascending, pair_list, sort_distinct};
use crate::pool::{
    config_key, displaced, pooled, pushed, McpConnectionPool, PoolKey, MAX_POOL_CAPACITY,
};
use crate::text::{clone_opt, join, opt_view, text_eq, views};

verus! {

broadcast use vstd::string::group_string_axioms;

// ---------------------------------------------------------------------------
// State
// ---------------------------------------------------------------------------

/// What is kept of the configuration of a connected server.
pub struct ServerRecord {
    pub name: String,
    /// Whether the server is configured with a built-in type.
    pub has_builtin_type: bool,
    /// The built-in type, its tool and the format of its results, where the
    /// server names type and tool.
    pub builtin: Option<(BuiltinToolType, String, ResponseFormat)>,
    /// Whether the tools of the server are kept out of client-visible output.
    pub internal: bool,
}

/// What a [`ServerRecord`] holds.
pub struct RecordView {
    pub name: Seq<char>,
    pub has_builtin_type: bool,
    pub builtin: Option<(BuiltinToolType, Seq<char>, ResponseFormat)>,
    pub internal: bool,
}

impl View for ServerRecord {
    type V = RecordView;

    open spec fn view(&self) -> RecordView {
        RecordView {
            name: self.name@,
            has_builtin_type: self.has_builtin_type,
            builtin: match self.builtin {
                Some(b) => Some((b.0, b.1@, b.2)),
                None => None,
            },
            internal: self.internal,
        }
    }
}

/// The views of a list of records.
pub open spec fn record_views(list: Seq<ServerRecord>) -> Seq<RecordView> {
    Seq::new(list.len(), |i: int| list[i]@)
}

/// What came of connecting a server of the configuration: a client, and the
/// tools that it offers where they could be listed.
pub struct StaticConnection {
    pub client: u64,
    pub tools: Option<Vec<Tool>>,
    pub prompts: Option<Vec<Offer>>,
    pub resources: Option<Vec<Offer>>,
}

/// What a [`StaticConnection`] holds.
pub struct ConnectionView {
    pub client: u64,
    pub tools: Option<Seq<ToolView>>,
    pub prompts: Option<Seq<(Seq<char>, JsonView)>>,
    pub resources: Option<Seq<(Seq<char>, JsonView)>>,
}

/// The orchestrator's state.
pub struct McpOrchestrator {
    /// Clients of the servers of the configuration; they are never evicted.
    pub static_clients: ClientTable,
    /// Records of those servers, in the order in which they were connected.
    pub static_records: Vec<ServerRecord>,
    /// All known tools.
    pub tool_inventory: ToolInventory,
    /// Connections to servers that requests brought along.
    pub connection_pool: McpConnectionPool,
    /// The configuration.
    pub config: McpConfig,
}

/// What an [`McpOrchestrator`] holds of servers and tools.
pub struct OrchestratorView {
    pub clients: Map<Seq<char>, u64>,
    pub records: Seq<RecordView>,
    pub inventory: InventoryView,
}

impl View for McpOrchestrator {
    type V = OrchestratorView;

    open spec fn view(&self) -> OrchestratorView {
        OrchestratorView {
            clients: self.static_clients@,
            records: record_views(self.static_records@),
            inventory: self.tool_inventory@,
        }
    }
}

/// The position of the record of a server among those from `from` on; their
/// number where there is none.
pub open spec fn record_index(records: Seq<RecordView>, name: Seq<char>, from: int) -> int
    decreases records.len() - from,
{
    if from >= records.len() {
        records.len() as int
    } else if records[from].name == name {
        from
    } else {
        record_index(records, name, from + 1)
    }
}

/// Whether every connected server has one record, and no other server has one.
pub open spec fn records_match(records: Seq<RecordView>, clients: Map<Seq<char>, u64>) -> bool {
    &&& forall|i: int, j: int|
        0 <= i < records.len() && 0 <= j < records.len() && i != j ==> (#[trigger] records[i]).name
            != (#[trigger] records[j]).name
    &&& forall|i: int| 0 <= i < records.len() ==> clients.contains_key((#[trigger] records[i]).name)
    &&& forall|name: Seq<char>| #[trigger]
        clients.contains_key(name) ==> exists|i: int|
            0 <= i < records.len() && (#[trigger] records[i]).name == name
}

impl McpOrchestrator {
    /// What always holds of an orchestrator.
    pub open spec fn wf(self) -> bool {
        &&& self.tool_inventory.wf()
        &&& self.connection_pool.wf()
        &&& records_match(self@.records, self@.clients)
    }
}

// ---------------------------------------------------------------------------
// Tool settings
// ---------------------------------------------------------------------------

/// The mapping that a configured one stands for.
pub open spec fn config_mapping(config: ToolConfig) -> Option<MappingView> {
    match config.arg_mapping {
        Some(m) => Some(
            MappingView { renames: pair_list(m.renames@), defaults: entry_views(m.defaults@) },
        ),
        None => None,
    }
}

/// The server under which aliases are kept.
pub open spec fn alias_name(alias: Seq<char>) -> NameView {
    ("alias"@, alias)
}

/// The inventory after an alias for a known tool was registered.
pub open spec fn with_alias(
    inventory: InventoryView,
    alias: Seq<char>,
    target: EntryView,
    name: NameView,
    mapping: Option<MappingView>,
    format: ResponseFormat,
) -> InventoryView {
    InventoryView {
        tools: tool_put(
            inventory.tools,
            EntryView {
                name: alias_name(alias),
                tool: target.tool,
                response_format: format,
                alias: Some(AliasView { target: name, arg_mapping: mapping }),
                category: ToolCategory::Static,
            },
        ),
        aliases: seq![(alias, name)] + inventory.aliases,
        ..inventory
    }
}

/// The inventory after the settings of one tool were applied: an alias where
/// one is configured, else a response format other than the default one.
/// Settings of a tool that the server does not have change nothing.
pub open spec fn configured(
    inventory: InventoryView,
    server: Seq<char>,
    tool: Seq<char>,
    config: ToolConfig,
) -> InventoryView {
    let format = ResponseFormat::of(config.response_format);
    match tool_get(inventory.tools, (server, tool)) {
        None => inventory,
        Some(target) => match config.alias {
            Some(alias) => with_alias(
                inventory,
                alias@,
                target,
                (server, tool),
                config_mapping(config),
                format,
            ),
            None => if format != ResponseFormat::Passthrough {
                InventoryView {
                    tools: formatted(inventory.tools, (server, tool), format),
                    ..inventory
                }
            } else {
                inventory
            },
        },
    }
}

/// The inventory after the settings of a list of tools were applied, in order.
pub open spec fn all_configured(
    inventory: InventoryView,
    server: Seq<char>,
    tools: Seq<(String, ToolConfig)>,
) -> InventoryView
    decreases tools.len(),
{
    if tools.len() == 0 {
        inventory
    } else {
        configured(
            all_configured(inventory, server, tools.drop_last()),
            server,
            tools.last().0@,
            tools.last().1,
        )
    }
}

/// The inventory after the tool settings of a server were applied.
pub open spec fn with_tool_configs(inventory: InventoryView, config: McpServerConfig) -> InventoryView {
    match config.tools {
        Some(tools) => all_configured(inventory, config.name@, tools@),
        None => inventory,
    }
}

/// What is configured for a tool of a server.
pub open spec fn tool_settings(config: McpServerConfig, tool: Seq<char>) -> Option<ToolConfig> {
    match config.tools {
        Some(tools) => lookup(tools@, tool),
        None => None,
    }
}

/// The inventory after the tool for a server's built-in type got the format of
/// that type, unless the tool has settings of its own.
pub open spec fn with_builtin_format(
    inventory: InventoryView,
    config: McpServerConfig,
) -> InventoryView {
    match (config.builtin_type, config.builtin_tool_name) {
        (Some(t), Some(tool)) => if tool_settings(config, tool@) is Some {
            inventory
        } else {
            InventoryView {
                tools: formatted(
                    inventory.tools,
                    (config.name@, tool@),
                    ResponseFormat::of(t.format()),
                ),
                ..inventory
            }
        },
        _ => inventory,
    }
}

/// The inventory after a server was connected: its earlier tools are gone,
/// those that it offers are there, and its settings are applied.
pub open spec fn with_connected(
    inventory: InventoryView,
    config: McpServerConfig,
    connection: ConnectionView,
) -> InventoryView {
    let cleared = without_server(inventory.tools, config.name@);
    let loaded = InventoryView {
        tools: match connection.tools {
            Some(list) => with_server_tools(
                cleared,
                config.name@,
                list,
                ToolCategory::Static,
            ),
            None => cleared,
        },
        prompts: match connection.prompts {
            Some(list) => with_offers(inventory.prompts, config.name@, list),
            None => inventory.prompts,
        },
        resources: match connection.resources {
            Some(list) => with_offers(inventory.resources, config.name@, list),
            None => inventory.resources,
        },
        ..inventory
    };
    with_builtin_format(with_tool_configs(loaded, config), config)
}

/// A tool with settings of its own keeps the format that they gave it: the
/// format of the built-in type is not applied to it.
pub proof fn law_explicit_format_wins(inventory: InventoryView, config: McpServerConfig)
    requires
        config.builtin_tool_name matches Some(tool) && tool_settings(config, tool@) is Some,
    ensures
        with_builtin_format(inventory, config) == inventory,
{
}

/// The tool for a built-in type gets the format of that type, where it has no
/// settings of its own.
pub proof fn law_builtin_format_applies(inventory: InventoryView, config: McpServerConfig)
    requires
        config.builtin_type is Some,
        config.builtin_tool_name is Some,
        tool_settings(config, config.builtin_tool_name->0@) is None,
        tool_get(inventory.tools, (config.name@, config.builtin_tool_name->0@)) is Some,
    ensures
        tool_get(
            with_builtin_format(inventory, config).tools,
            (config.name@, config.builtin_tool_name->0@),
        ) matches Some(e) && e.response_format == ResponseFormat::of(
            config.builtin_type->0.format(),
        ),
{
    let name = (config.name@, config.builtin_tool_name->0@);
    let format = ResponseFormat::of(config.builtin_type->0.format());
    crate::inventory::lemma_tool_index(inventory.tools, name, 0);
    let e = tool_get(inventory.tools, name)->0;
    crate::inventory::law_inventory_put(
        inventory.tools,
        EntryView { response_format: format, ..e },
        name,
    );
}

/// A registered alias stands for its target, and is itself a tool with the
/// target's description.
pub proof fn law_alias_resolves(
    inventory: InventoryView,
    alias: Seq<char>,
    target: EntryView,
    name: NameView,
    mapping: Option<MappingView>,
    format: ResponseFormat,
)
    ensures
        crate::inventory::alias_get(
            with_alias(inventory, alias, target, name, mapping, format).aliases,
            alias,
            0,
        ) == Some(name),
        tool_get(
            with_alias(inventory, alias, target, name, mapping, format).tools,
            alias_name(alias),
        ) matches Some(e) && e.tool == target.tool && crate::execution::call_target(e) == name,
{
    crate::inventory::law_inventory_put(
        inventory.tools,
        EntryView {
            name: alias_name(alias),
            tool: target.tool,
            response_format: format,
            alias: Some(AliasView { target: name, arg_mapping: mapping }),
            category: ToolCategory::Static,
        },
        name,
    );
}

impl McpOrchestrator {
    /// Registers another name for a tool. The target has to be known.
    pub fn register_alias(
        &mut self,
        alias_name: &str,
        target_server: &str,
        target_tool: &str,
        arg_mapping: Option<ArgMapping>,
        response_format: ResponseFormat,
    ) -> (r: Result<(), McpError>)
        requires
            old(self).wf(),
        ensures
            final(self).wf(),
            final(self).connection_pool == old(self).connection_pool,
            final(self).config == old(self).config,
            match tool_get(old(self)@.inventory.tools, (target_server@, target_tool@)) {
                Some(target) => r is Ok && final(self)@ == (OrchestratorView {
                    inventory: with_alias(
                        old(self)@.inventory,
                        alias_name@,
                        target,
                        (target_server@, target_tool@),
                        opt_mapping(arg_mapping),
                        response_format,
                    ),
                    ..old(self)@
                }),
                None => r matches Err(e) && e@ == ErrorView::ToolNotFound(
                    qualified_text(target_server@, target_tool@),
                ) && final(self)@ == old(self)@,
            },
    {
        match self.tool_inventory.get_entry(target_server, target_tool) {
            Some(target) => {
                let alias = AliasTarget {
                    target: QualifiedToolName::new(target_server, target_tool),
                    arg_mapping,
                };
                let entry = ToolEntry::new(
                    QualifiedToolName::new("alias", alias_name),
                    target.tool,
                ).with_alias(alias).with_response_format(response_format);
                self.tool_inventory.insert_entry(entry);
                self.tool_inventory.register_alias(
                    alias_name,
                    QualifiedToolName::new(target_server, target_tool),
                );
                Ok(())
            },
            None => Err(
                McpError::ToolNotFound(
                    QualifiedToolName::new(target_server, target_tool).to_string(),
                ),
            ),
        }
    }

    /// Applies the settings of one tool of a server.
    fn apply_tool_config(&mut self, server: &str, tool: &str, config: &ToolConfig)
        requires
            old(self).wf(),
        ensures
            final(self).wf(),
            final(self).connection_pool == old(self).connection_pool,
            final(self).config == old(self).config,
            final(self)@ == (OrchestratorView {
                inventory: configured(old(self)@.inventory, server@, tool@, *config),
                ..old(self)@
            }),
    {
        let format = ResponseFormat::from_config(config.response_format);
        match &config.alias {
            Some(alias) => {
                let mapping = match &config.arg_mapping {
                    Some(m) => Some(
                        ArgMapping {
                            renames: crate::config::clone_pairs(&m.renames),
                            defaults: crate::json::clone_entries(&m.defaults),
                        },
                    ),
                    None => None,
                };
                let _ = self.register_alias(alias.as_str(), server, tool, mapping, format);
            },
            None => {
                if format != ResponseFormat::Passthrough {
                    let _ = self.tool_inventory.set_response_format(server, tool, format);
                }
            },
        }
    }

    /// Applies the tool settings of a server: aliases, response formats and
    /// argument mappings.
    pub fn apply_tool_configs(&mut self, config: &McpServerConfig)
        requires
            old(self).wf(),
        ensures
            final(self).wf(),
            final(self).connection_pool == old(self).connection_pool,
            final(self).config == old(self).config,
            final(self)@ == (OrchestratorView {
                inventory: with_tool_configs(old(self)@.inventory, *config),
                ..old(self)@
            }),
    {
        let ghost before = *self;
        match &config.tools {
            Some(tools) => {
                for i in 0..tools.len()
                    invariant
                        self.wf(),
                        self.connection_pool == before.connection_pool,
                        self.config == before.config,
                        self@ == (OrchestratorView {
                            inventory: all_configured(
                                before@.inventory,
                                config.name@,
                                tools@.take(i as int),
                            ),
                            ..before@
                        }),
                {
                    self.apply_tool_config(
                        config.name.as_str(),
                        tools[i].0.as_str(),
                        &tools[i].1,
                    );
                    proof {
                        let next = tools@.take(i + 1);
                        assert(next.drop_last() =~= tools@.take(i as int));
                        assert(next.last() == tools@[i as int]);
                    }
                }
                assert(tools@.take(tools@.len() as int) =~= tools@);
            },
            None => {},
        }
    }

    /// Gives the tool for a server's built-in type the response format of that
    /// type, unless the tool has settings of its own.
    pub fn apply_builtin_response_format(&mut self, config: &McpServerConfig)
        requires
            old(self).wf(),
        ensures
            final(self).wf(),
            final(self).connection_pool == old(self).connection_pool,
            final(self).config == old(self).config,
            final(self)@ == (OrchestratorView {
                inventory: with_builtin_format(old(self)@.inventory, *config),
                ..old(self)@
            }),
    {
        if let (Some(builtin_type), Some(tool_name)) = (
            &config.builtin_type,
            &config.builtin_tool_name,
        ) {
            let explicit: bool = match &config.tools {
                Some(tools) => get_entry(tools, tool_name.as_str()).is_some(),
                None => false,
            };
            if !explicit {
                let format = ResponseFormat::from_config(builtin_type.response_format());
                let _ = self.tool_inventory.set_response_format(
                    config.name.as_str(),
                    tool_name.as_str(),
                    format,
                );
            }
        }
    }
}

// ---------------------------------------------------------------------------
// Servers of the configuration
// ---------------------------------------------------------------------------

/// The tool of a server for a built-in type: server, tool, and the format of
/// its results, which is the one in the tool's own settings or that of the
/// type.
pub open spec fn builtin_tool(config: McpServerConfig) -> Option<
    (BuiltinToolType, Seq<char>, ResponseFormat),
> {
    match (config.builtin_type, config.builtin_tool_name) {
        (Some(t), Some(tool)) => Some(
            (
                t,
                tool@,
                match tool_settings(config, tool@) {
                    Some(settings) => ResponseFormat::of(settings.response_format),
                    None => ResponseFormat::of(t.format()),
                },
            ),
        ),
        _ => None,
    }
}

/// The record of a server.
pub open spec fn record_of(config: McpServerConfig) -> RecordView {
    RecordView {
        name: config.name@,
        has_builtin_type: config.builtin_type is Some,
        builtin: builtin_tool(config),
        internal: config.internal,
    }
}

impl ServerRecord {
    /// The record of a server.
    pub fn of(config: &McpServerConfig) -> (r: ServerRecord)
        ensures
            r@ == record_of(*config),
    {
        let builtin = match (config.builtin_type, &config.builtin_tool_name) {
            (Some(t), Some(tool)) => {
                let explicit = match &config.tools {
                    Some(tools) => get_entry(tools, tool.as_str()),
                    None => None,
                };
                let format = match explicit {
                    Some(settings) => settings.response_format,
                    None => t.response_format(),
                };
                Some((t, tool.clone(), ResponseFormat::from_config(format)))
            },
            _ => None,
        };
        ServerRecord {
            name: config.name.clone(),
            has_builtin_type: config.builtin_type.is_some(),
            builtin,
            internal: config.internal,
        }
    }
}

/// What came of connecting a server, as the state sees it.
pub open spec fn connection_view(c: Result<StaticConnection, McpError>) -> Result<
    ConnectionView,
    ErrorView,
> {
    match c {
        Ok(c) => Ok(
            ConnectionView {
                client: c.client,
                tools: opt_offered(c.tools),
                prompts: opt_offers(c.prompts),
                resources: opt_offers(c.resources),
            },
        ),
        Err(e) => Err(e@),
    }
}

/// The view of optional prompts or resources.
pub open spec fn opt_offers(list: Option<Vec<Offer>>) -> Option<Seq<(Seq<char>, JsonView)>> {
    match list {
        Some(l) => Some(offer_views(l@)),
        None => None,
    }
}

/// The view of optional tools.
pub open spec fn opt_offered(tools: Option<Vec<Tool>>) -> Option<Seq<ToolView>> {
    match tools {
        Some(list) => Some(offered_views(list@)),
        None => None,
    }
}

/// The state after a server was connected, or could not be. A server that was
/// connected before stays as it is.
pub open spec fn after_connect(
    state: OrchestratorView,
    config: McpServerConfig,
    connection: Result<ConnectionView, ErrorView>,
) -> (OrchestratorView, Result<(), ErrorView>) {
    if state.clients.contains_key(config.name@) {
        (state, Ok(()))
    } else {
        match connection {
            Err(e) => (state, Err(e)),
            Ok(c) => (
                OrchestratorView {
                    clients: state.clients.insert(config.name@, c.client),
                    records: state.records.push(record_of(config)),
                    inventory: with_connected(state.inventory, config, c),
                },
                Ok(()),
            ),
        }
    }
}

/// That a server is internal does not change what its connection brings: the
/// same tools can be called, with the same settings, by the same client.
pub proof fn law_internal_servers_are_called_alike(
    state: OrchestratorView,
    config: McpServerConfig,
    internal: bool,
    connection: Result<ConnectionView, ErrorView>,
)
    ensures
        ({
            let other = McpServerConfig { internal, ..config };
            let a = after_connect(state, other, connection);
            let b = after_connect(state, config, connection);
            &&& a.0.clients == b.0.clients
            &&& a.0.inventory == b.0.inventory
            &&& a.1 == b.1
        }),
{
}

/// The state after the servers from `from` on were connected; the error of the
/// first required one that could not be.
pub open spec fn after_startup(
    state: OrchestratorView,
    servers: Seq<McpServerConfig>,
    connections: Seq<Result<StaticConnection, McpError>>,
    from: int,
) -> Result<OrchestratorView, ErrorView>
    decreases servers.len() - from,
{
    if from >= servers.len() {
        Ok(state)
    } else {
        let next = after_connect(state, servers[from], connection_view(connections[from]));
        match next.1 {
            Err(e) => if servers[from].required {
                Err(e)
            } else {
                after_startup(next.0, servers, connections, from + 1)
            },
            Ok(()) => after_startup(next.0, servers, connections, from + 1),
        }
    }
}

/// A state without servers and tools.
pub open spec fn empty_state() -> OrchestratorView {
    OrchestratorView {
        clients: Map::empty(),
        records: Seq::empty(),
        inventory: empty_inventory(),
    }
}

proof fn lemma_records_after_push(
    records: Seq<RecordView>,
    clients: Map<Seq<char>, u64>,
    record: RecordView,
    client: u64,
)
    requires
        records_match(records, clients),
        !clients.contains_key(record.name),
    ensures
        records_match(records.push(record), clients.insert(record.name, client)),
{
    let after = records.push(record);
    let map = clients.insert(record.name, client);
    assert forall|i: int, j: int|
        0 <= i < after.len() && 0 <= j < after.len() && i != j implies (#[trigger] after[i]).name
        != (#[trigger] after[j]).name by {
        if i < records.len() {
            assert(after[i] == records[i]);
        }
        if j < records.len() {
            assert(after[j] == records[j]);
        }
    }
    assert forall|i: int| 0 <= i < after.len() implies map.contains_key(
        (#[trigger] after[i]).name,
    ) by {
        if i < records.len() {
            assert(after[i] == records[i]);
        }
    }
    assert forall|name: Seq<char>| #[trigger] map.contains_key(name) implies exists|i: int|
        0 <= i < after.len() && (#[trigger] after[i]).name == name by {
        if name == record.name {
            assert(after[records.len() as int].name == name);
        } else {
            assert(clients.contains_key(name));
            let i = choose|i: int| 0 <= i < records.len() && (#[trigger] records[i]).name == name;
            assert(after[i].name == name);
        }
    }
}

/// How many connections to dynamic servers are kept.
pub open spec fn pool_capacity(config: McpConfig) -> nat {
    if config.pool.max_connections == 0 {
        1
    } else {
        config.pool.max_connections as nat
    }
}

impl McpOrchestrator {
    /// An orchestrator for a configuration, with no server connected yet. The
    /// configuration has to be valid.
    pub fn new(config: McpConfig) -> (r: Result<McpOrchestrator, McpError>)
        requires
            config.pool.max_connections <= MAX_POOL_CAPACITY,
        ensures
            match r {
                Ok(o) => {
                    &&& first_error(config.servers@, 0) is Ok
                    &&& o.wf()
                    &&& o@ == empty_state()
                    &&& o.connection_pool.entries().len() == 0
                    &&& o.connection_pool.capacity() == pool_capacity(config)
                    &&& o.connection_pool.proxy() == config.proxy
                    &&& o.config == config
                },
                Err(e) => first_error(config.servers@, 0) matches Err(bad) && e@
                    == ErrorView::Config(error_text(bad)),
            },
    {
        match config.validate() {
            Err(e) => Err(McpError::Config(e.to_string())),
            Ok(()) => {
                let proxy = clone_proxy(&config.proxy);
                let o = McpOrchestrator {
                    static_clients: ClientTable::new(),
                    static_records: Vec::new(),
                    tool_inventory: ToolInventory::new(),
                    connection_pool: McpConnectionPool::with_full_config(
                        config.pool.max_connections,
                        proxy,
                    ),
                    config,
                };
                assert(o@.records =~= Seq::<RecordView>::empty());
                assert(o@.clients =~= Map::<Seq<char>, u64>::empty());
                Ok(o)
            },
        }
    }

    /// Whether a server of the configuration is connected.
    pub fn is_connected(&self, name: &str) -> (r: bool)
        ensures
            r == self@.clients.contains_key(name@),
    {
        self.static_clients.contains(name)
    }

    /// Takes in what came of connecting a server of the configuration. The
    /// error of a failed attempt is handed back.
    pub fn connect_static_server(
        &mut self,
        config: &McpServerConfig,
        connection: &Result<StaticConnection, McpError>,
    ) -> (r: Result<(), McpError>)
        requires
            old(self).wf(),
        ensures
            final(self).wf(),
            final(self).connection_pool == old(self).connection_pool,
            final(self).config == old(self).config,
            final(self)@ == after_connect(old(self)@, *config, connection_view(*connection)).0,
            match r {
                Ok(()) => after_connect(old(self)@, *config, connection_view(*connection)).1 is Ok,
                Err(e) => after_connect(old(self)@, *config, connection_view(*connection)).1
                    == Err::<(), ErrorView>(e@),
            },
    {
        if self.is_connected(config.name.as_str()) {
            return Ok(());
        }
        match connection {
            Err(e) => Err(e.clone()),
            Ok(c) => {
                let ghost before = self@;
                self.tool_inventory.clear_server_tools(config.name.as_str());
                if let Some(tools) = &c.tools {
                    self.tool_inventory.insert_server_tools(
                        config.name.as_str(),
                        tools,
                        ToolCategory::Static,
                    );
                }
                if let Some(prompts) = &c.prompts {
                    self.tool_inventory.insert_prompts(config.name.as_str(), prompts);
                }
                if let Some(resources) = &c.resources {
                    self.tool_inventory.insert_resources(config.name.as_str(), resources);
                }
                self.apply_tool_configs(config);
                self.apply_builtin_response_format(config);
                self.static_clients.insert(config.name.as_str(), c.client);
                self.static_records.push(ServerRecord::of(config));
                proof {
                    assert(self@.records =~= before.records.push(record_of(*config)));
                    lemma_records_after_push(
                        before.records,
                        before.clients,
                        record_of(*config),
                        c.client,
                    );
                }
                Ok(())
            },
        }
    }

    /// Starts an orchestrator: the configuration is checked, then what came of
    /// connecting each of its servers is taken in. Only a required server that
    /// could not be connected stops the start.
    pub fn start(
        config: McpConfig,
        connections: &Vec<Result<StaticConnection, McpError>>,
    ) -> (r: Result<McpOrchestrator, McpError>)
        requires
            config.pool.max_connections <= MAX_POOL_CAPACITY,
            connections@.len() == config.servers@.len(),
        ensures
            match first_error(config.servers@, 0) {
                Err(bad) => r matches Err(e) && e@ == ErrorView::Config(error_text(bad)),
                Ok(()) => match after_startup(
                    empty_state(),
                    config.servers@,
                    connections@,
                    0,
                ) {
                    Ok(state) => r matches Ok(o) && o.wf() && o@ == state && o.config == config
                        && o.connection_pool.entries().len() == 0 && o.connection_pool.capacity()
                        == pool_capacity(config) && o.connection_pool.proxy() == config.proxy,
                    Err(bad) => r matches Err(e) && e@ == bad,
                },
            },
    {
        let ghost servers = config.servers@;
        let mut o = match McpOrchestrator::new(config) {
            Ok(o) => o,
            Err(e) => {
                return Err(e);
            },
        };
        let mut i: usize = 0;
        while i < connections.len()
            invariant
                o.wf(),
                o.config == config,
                o.connection_pool.entries().len() == 0,
                o.connection_pool.capacity() == pool_capacity(config),
                o.connection_pool.proxy() == config.proxy,
                config.servers@ == servers,
                connections@.len() == servers.len(),
                i <= connections@.len(),
                first_error(servers, 0) is Ok,
                after_startup(empty_state(), servers, connections@, 0) == after_startup(
                    o@,
                    servers,
                    connections@,
                    i as int,
                ),
            decreases connections@.len() - i,
        {
            o = match McpOrchestrator::connect_configured(o, i, &connections[i]) {
                Ok(next) => next,
                Err(e) => {
                    return Err(e);
                },
            };
            i += 1;
        }
        Ok(o)
    }

    /// Takes in, while starting, what came of connecting the server at position
    /// `i` of the configuration. A failed attempt stops the start where the
    /// server is required, and changes nothing where it is not.
    pub fn connect_configured(
        orchestrator: McpOrchestrator,
        i: usize,
        connection: &Result<StaticConnection, McpError>,
    ) -> (r: Result<McpOrchestrator, McpError>)
        requires
            orchestrator.wf(),
            i < orchestrator.config.servers@.len(),
        ensures
            ({
                let server = orchestrator.config.servers@[i as int];
                let next = after_connect(orchestrator@, server, connection_view(*connection));
                match r {
                    Ok(o) => {
                        &&& next.1 is Ok || !server.required
                        &&& o.wf()
                        &&& o@ == next.0
                        &&& o.config == orchestrator.config
                        &&& o.connection_pool == orchestrator.connection_pool
                    },
                    Err(e) => server.required && next.1 == Err::<(), ErrorView>(e@),
                }
            }),
    {
        let required: bool = orchestrator.config.servers[i].required;
        let McpOrchestrator {
            static_clients,
            static_records,
            tool_inventory,
            connection_pool,
            config,
        } = orchestrator;
        let mut work = McpOrchestrator {
            static_clients,
            static_records,
            tool_inventory,
            connection_pool,
            config: McpConfig::default(),
        };
        let outcome = work.connect_static_server(&config.servers[i], connection);
        work.config = config;
        match outcome {
            Err(e) => if required {
                Err(e)
            } else {
                Ok(work)
            },
            Ok(()) => Ok(work),
        }
    }
}

/// Whether no two servers of a configuration have the same name.
pub open spec fn names_differ(servers: Seq<McpServerConfig>) -> bool {
    forall|i: int, j: int|
        0 <= i < servers.len() && 0 <= j < servers.len() && i != j ==> (
        #[trigger] servers[i]).name@ != (#[trigger] servers[j]).name@
}

/// Whether a server of that name was connected.
pub open spec fn came_up(
    servers: Seq<McpServerConfig>,
    connections: Seq<Result<StaticConnection, McpError>>,
    from: int,
    name: Seq<char>,
) -> bool {
    exists|i: int|
        from <= i < servers.len() && (#[trigger] servers[i]).name@ == name && connections[i] is Ok
}

/// A started orchestrator knows exactly the servers that were connected: one
/// that could not be is left out, and nothing else changes.
pub proof fn law_connected_servers_are_known(
    servers: Seq<McpServerConfig>,
    connections: Seq<Result<StaticConnection, McpError>>,
    name: Seq<char>,
)
    requires
        connections.len() == servers.len(),
    ensures
        after_startup(empty_state(), servers, connections, 0) matches Ok(state) ==> (
        state.clients.contains_key(name) <==> came_up(servers, connections, 0, name)),
{
    lemma_known_after_startup(empty_state(), servers, connections, 0, name);
}

proof fn lemma_known_after_startup(
    state: OrchestratorView,
    servers: Seq<McpServerConfig>,
    connections: Seq<Result<StaticConnection, McpError>>,
    from: int,
    name: Seq<char>,
)
    requires
        connections.len() == servers.len(),
        0 <= from <= servers.len(),
    ensures
        after_startup(state, servers, connections, from) matches Ok(end) ==> (
        end.clients.contains_key(name) <==> state.clients.contains_key(name) || came_up(
            servers,
            connections,
            from,
            name,
        )),
    decreases servers.len() - from,
{
    if from < servers.len() {
        let next = after_connect(state, servers[from], connection_view(connections[from]));
        lemma_known_after_startup(next.0, servers, connections, from + 1, name);
        if came_up(servers, connections, from, name) {
            let i = choose|i: int|
                from <= i < servers.len() && (#[trigger] servers[i]).name@ == name
                    && connections[i] is Ok;
            if i > from {
                assert(came_up(servers, connections, from + 1, name));
            }
        }
        if came_up(servers, connections, from + 1, name) {
            let i = choose|i: int|
                from + 1 <= i < servers.len() && (#[trigger] servers[i]).name@ == name
                    && connections[i] is Ok;
            assert(servers[i].name@ == name);
        }
        if servers[from].name@ == name && connections[from] is Ok {
            assert(came_up(servers, connections, from, name));
        }
    }
}

/// Starting fails exactly where a required server could not be connected, with
/// the error of the first such server.
pub proof fn law_start_needs_required_servers(
    servers: Seq<McpServerConfig>,
    connections: Seq<Result<StaticConnection, McpError>>,
)
    requires
        connections.len() == servers.len(),
        names_differ(servers),
    ensures
        match after_startup(empty_state(), servers, connections, 0) {
            Ok(_) => forall|i: int|
                0 <= i < servers.len() && (#[trigger] servers[i]).required ==> connections[i] is Ok,
            Err(e) => exists|i: int|
                #![trigger servers[i]]
                is_first_failure(servers, connections, 0, i) && connection_view(connections[i])
                    == Err::<ConnectionView, ErrorView>(e),
        },
{
    lemma_first_failure(empty_state(), servers, connections, 0);
}

/// Whether the server at position `at` is the first required one, from `from`
/// on, that could not be connected.
pub open spec fn is_first_failure(
    servers: Seq<McpServerConfig>,
    connections: Seq<Result<StaticConnection, McpError>>,
    from: int,
    at: int,
) -> bool {
    &&& from <= at < servers.len()
    &&& servers[at].required
    &&& connections[at] is Err
    &&& forall|j: int|
        from <= j < at && (#[trigger] servers[j]).required ==> connections[j] is Ok
}

proof fn lemma_first_failure(
    state: OrchestratorView,
    servers: Seq<McpServerConfig>,
    connections: Seq<Result<StaticConnection, McpError>>,
    from: int,
)
    requires
        connections.len() == servers.len(),
        0 <= from <= servers.len(),
        names_differ(servers),
        forall|i: int|
            from <= i < servers.len() ==> !state.clients.contains_key(
                (#[trigger] servers[i]).name@,
            ),
    ensures
        match after_startup(state, servers, connections, from) {
            Ok(_) => forall|i: int|
                from <= i < servers.len() && (#[trigger] servers[i]).required
                    ==> connections[i] is Ok,
            Err(e) => exists|i: int|
                #![trigger servers[i]]
                is_first_failure(servers, connections, from, i) && connection_view(connections[i])
                    == Err::<ConnectionView, ErrorView>(e),
        },
    decreases servers.len() - from,
{
    if from < servers.len() {
        let here = servers[from];
        let next = after_connect(state, here, connection_view(connections[from]));
        if here.required && connections[from] is Err {
            assert(is_first_failure(servers, connections, from, from));
        } else {
            assert forall|i: int| from + 1 <= i < servers.len() implies !next.0.clients.contains_key(
                (#[trigger] servers[i]).name@,
            ) by {
                assert(servers[i].name@ != servers[from].name@);
            }
            lemma_first_failure(next.0, servers, connections, from + 1);
            if let Err(e) = after_startup(next.0, servers, connections, from + 1) {
                let i = choose|i: int|
                    #![trigger servers[i]]
                    is_first_failure(servers, connections, from + 1, i) && connection_view(
                        connections[i],
                    ) == Err::<ConnectionView, ErrorView>(e);
                assert(is_first_failure(servers, connections, from, i));
            }
        }
    }
}

// ---------------------------------------------------------------------------
// Changes at run time
// ---------------------------------------------------------------------------

proof fn lemma_record_index(records: Seq<RecordView>, name: Seq<char>, from: int)
    requires
        0 <= from <= records.len(),
    ensures
        from <= record_index(records, name, from) <= records.len(),
        record_index(records, name, from) < records.len() ==> records[record_index(
            records,
            name,
            from,
        )].name == name,
        forall|j: int|
            from <= j < record_index(records, name, from) ==> (#[trigger] records[j]).name != name,
    decreases records.len() - from,
{
    if from < records.len() && records[from].name != name {
        lemma_record_index(records, name, from + 1);
    }
}

/// The records without that of one server.
pub open spec fn without_record(records: Seq<RecordView>, name: Seq<char>) -> Seq<RecordView> {
    let at = record_index(records, name, 0);
    if at < records.len() {
        records.remove(at)
    } else {
        records
    }
}

proof fn lemma_records_after_remove(
    records: Seq<RecordView>,
    clients: Map<Seq<char>, u64>,
    name: Seq<char>,
)
    requires
        records_match(records, clients),
    ensures
        records_match(without_record(records, name), clients.remove(name)),
{
    lemma_record_index(records, name, 0);
    let at = record_index(records, name, 0);
    let after = without_record(records, name);
    let map = clients.remove(name);
    if at < records.len() {
        assert forall|i: int| 0 <= i < after.len() implies (#[trigger] after[i]).name != name
            && map.contains_key(after[i].name) by {
            let k = if i < at {
                i
            } else {
                i + 1
            };
            assert(after[i] == records[k]);
            assert(records[k].name != records[at].name);
        }
        assert forall|i: int, j: int|
            0 <= i < after.len() && 0 <= j < after.len() && i != j implies (#[trigger] after[i]).name
            != (#[trigger] after[j]).name by {
            let x = if i < at {
                i
            } else {
                i + 1
            };
            let y = if j < at {
                j
            } else {
                j + 1
            };
            assert(after[i] == records[x]);
            assert(after[j] == records[y]);
        }
        assert forall|n: Seq<char>| #[trigger] map.contains_key(n) implies exists|i: int|
            0 <= i < after.len() && (#[trigger] after[i]).name == n by {
            assert(clients.contains_key(n));
            let k = choose|k: int| 0 <= k < records.len() && (#[trigger] records[k]).name == n;
            let i = if k < at {
                k
            } else {
                k - 1
            };
            assert(after[i] == records[k]);
        }
    } else {
        if clients.contains_key(name) {
            let k = choose|k: int| 0 <= k < records.len() && (#[trigger] records[k]).name == name;
            assert(records[k].name != name);
        }
        assert(map =~= clients);
    }
}

/// What follows on asking for a connection to a server that a request brought
/// along.
pub enum DynamicStep {
    /// There is one; the key of the server.
    Connected(String),
    /// One is to be made, for this key.
    Connect(PoolKey),
}

/// The state after a connection to a server that a request brought along was
/// put into the pool. The tools of a server whose entry left the pool are
/// gone; those that the new server offers are there.
pub open spec fn after_dynamic(
    inventory: InventoryView,
    gone: Option<(crate::pool::KeyView, u64)>,
    server: Seq<char>,
    offered: Option<Seq<ToolView>>,
) -> InventoryView {
    let kept = match gone {
        Some(entry) => without_server(inventory.tools, entry.0.0),
        None => inventory.tools,
    };
    InventoryView {
        tools: match offered {
            Some(list) => with_server_tools(kept, server, list, ToolCategory::Dynamic),
            None => kept,
        },
        ..inventory
    }
}

/// The inventory and the pool after a connection to a server that a request brought
/// along was taken in.
pub open spec fn with_dynamic(
    inventory: InventoryView,
    entries: crate::pool::PoolEntries,
    capacity: nat,
    key: crate::pool::KeyView,
    client: u64,
    offered: Option<Seq<ToolView>>,
) -> (InventoryView, crate::pool::PoolEntries) {
    (
        after_dynamic(inventory, displaced(entries, capacity, key), key.0, offered),
        pushed(entries, capacity, key, client),
    )
}

/// The inventory after the tools of a server were listed anew.
pub open spec fn refreshed(
    inventory: InventoryView,
    server: Seq<char>,
    offered: Option<Seq<ToolView>>,
) -> InventoryView {
    let cleared = without_server(inventory.tools, server);
    InventoryView {
        tools: match offered {
            Some(list) => with_server_tools(cleared, server, list, ToolCategory::Static),
            None => cleared,
        },
        ..inventory
    }
}

/// The key of a server: its address, or its command line.
pub open spec fn server_key_of(transport: McpTransport) -> Seq<char> {
    config_key(transport, None).0
}

impl McpOrchestrator {
    /// Forgets the client of a server of the configuration, so that the server
    /// can be connected anew.
    pub fn disconnect_static_server(&mut self, name: &str)
        requires
            old(self).wf(),
        ensures
            final(self).wf(),
            final(self).connection_pool == old(self).connection_pool,
            final(self).config == old(self).config,
            final(self)@ == (OrchestratorView {
                clients: old(self)@.clients.remove(name@),
                records: without_record(old(self)@.records, name@),
                ..old(self)@
            }),
    {
        let ghost before = self@;
        proof {
            lemma_records_after_remove(before.records, before.clients, name@);
            lemma_record_index(before.records, name@, 0);
        }
        let mut at: usize = 0;
        while at < self.static_records.len() && !text_eq(
            self.static_records[at].name.as_str(),
            name,
        )
            invariant
                at <= self.static_records@.len(),
                before.records == record_views(self.static_records@),
                record_index(before.records, name@, 0) == record_index(
                    before.records,
                    name@,
                    at as int,
                ),
            ensures
                at <= self.static_records@.len(),
                at == record_index(before.records, name@, 0),
            decreases self.static_records@.len() - at,
        {
            assert(before.records[at as int] == self.static_records@[at as int]@);
            at += 1;
        }
        if at < self.static_records.len() {
            let _ = self.static_records.remove(at);
        }
        self.static_clients.remove(name);
        assert(self@.records =~= without_record(before.records, name@));
    }

    /// The servers whose tools can be refreshed: those that are connected now.
    /// The gateway takes them once, when it has started; servers that are
    /// connected later are not among them.
    pub fn refresh_targets(&self) -> (targets: ClientTable)
        ensures
            targets@ == self@.clients,
    {
        self.static_clients.copy()
    }

    /// Whether a server is reached by `client`: a server of the configuration by its
    /// own, any other by a pooled one.
    pub open spec fn is_route(self, server: Seq<char>, client: Option<u64>) -> bool {
        let entries = self.connection_pool.entries();
        let at = McpConnectionPool::url_index(entries, server, 0);
        client == (if self@.clients.contains_key(server) {
            Some(self@.clients[server])
        } else if at < entries.len() {
            Some(entries[at].1)
        } else {
            None
        })
    }

    /// Takes in a new list of the tools of a server. The earlier ones are gone
    /// even where the new ones could not be listed. A server that is not among
    /// `targets` is left alone.
    pub fn refresh_server(
        &mut self,
        targets: &ClientTable,
        server_key: &str,
        tools: &Option<Vec<Tool>>,
    )
        requires
            old(self).wf(),
        ensures
            final(self).wf(),
            final(self).connection_pool == old(self).connection_pool,
            final(self).config == old(self).config,
            final(self)@.inventory == (if targets@.contains_key(server_key@) {
                refreshed(old(self)@.inventory, server_key@, opt_offered(*tools))
            } else {
                old(self)@.inventory
            }),
            final(self)@ == (if targets@.contains_key(server_key@) {
                let cleared = without_server(old(self)@.inventory.tools, server_key@);
                OrchestratorView {
                    inventory: InventoryView {
                        tools: match opt_offered(*tools) {
                            Some(list) => with_server_tools(
                                cleared,
                                server_key@,
                                list,
                                ToolCategory::Static,
                            ),
                            None => cleared,
                        },
                        ..old(self)@.inventory
                    },
                    ..old(self)@
                }
            } else {
                old(self)@
            }),
    {
        if targets.contains(server_key) {
            self.tool_inventory.clear_server_tools(server_key);
            if let Some(list) = tools {
                self.tool_inventory.insert_server_tools(server_key, list, ToolCategory::Static);
            }
        }
    }

    /// The key of a server: its address, or its command line.
    pub fn server_key(config: &McpServerConfig) -> (key: String)
        ensures
            key@ == server_key_of(config.transport),
    {
        match &config.transport {
            McpTransport::Streamable { url, .. } => url.clone(),
            McpTransport::Sse { url, .. } => url.clone(),
            McpTransport::Stdio { command, args, .. } => {
                let mut key: String = command.clone();
                key.append(":");
                key.append(join(args, " ").as_str());
                key
            },
        }
    }

    /// Asks for a connection to a server that a request brought along, for any
    /// tenant.
    pub fn connect_dynamic_server(&self, config: &McpServerConfig) -> (step: DynamicStep)
        ensures
            self.is_dynamic_step(step, *config, None),
    {
        self.connect_dynamic_server_with_tenant(config, None)
    }

    /// Whether `step` is what follows on asking for a connection for a tenant.
    pub open spec fn is_dynamic_step(
        self,
        step: DynamicStep,
        config: McpServerConfig,
        tenant: Option<Seq<char>>,
    ) -> bool {
        let key = config_key(config.transport, tenant);
        match step {
            DynamicStep::Connected(url) => pooled(self.connection_pool.entries(), key) is Some
                && url@ == key.0,
            DynamicStep::Connect(k) => pooled(self.connection_pool.entries(), key) is None && k@
                == key,
        }
    }

    /// Asks for a connection to a server that a request brought along. Another
    /// tenant, or other credentials, need a connection of their own.
    pub fn connect_dynamic_server_with_tenant(
        &self,
        config: &McpServerConfig,
        tenant_id: Option<String>,
    ) -> (step: DynamicStep)
        ensures
            self.is_dynamic_step(step, *config, opt_view(tenant_id)),
    {
        let key = PoolKey::from_config(config, tenant_id);
        if self.connection_pool.contains(&key) {
            DynamicStep::Connected(key.url)
        } else {
            DynamicStep::Connect(key)
        }
    }

    /// Takes in a connection to a server that a request brought along, with the
    /// tools that it offers where they could be listed. Gives the key of the
    /// server.
    pub fn finish_dynamic_connection(
        &mut self,
        key: &PoolKey,
        client: u64,
        tools: &Option<Vec<Tool>>,
    ) -> (url: String)
        requires
            old(self).wf(),
        ensures
            final(self).wf(),
            url@ == key@.0,
            final(self).config == old(self).config,
            final(self).connection_pool.capacity() == old(self).connection_pool.capacity(),
            final(self).connection_pool.proxy() == old(self).connection_pool.proxy(),
            (final(self)@.inventory, final(self).connection_pool.entries()) == with_dynamic(
                old(self)@.inventory,
                old(self).connection_pool.entries(),
                old(self).connection_pool.capacity(),
                key@,
                client,
                opt_offered(*tools),
            ),
            final(self).connection_pool.entries() == pushed(
                old(self).connection_pool.entries(),
                old(self).connection_pool.capacity(),
                key@,
                client,
            ),
            final(self)@ == (OrchestratorView {
                inventory: after_dynamic(
                    old(self)@.inventory,
                    displaced(
                        old(self).connection_pool.entries(),
                        old(self).connection_pool.capacity(),
                        key@,
                    ),
                    key@.0,
                    opt_offered(*tools),
                ),
                ..old(self)@
            }),
    {
        match self.connection_pool.insert(key, client) {
            Some(gone) => {
                self.tool_inventory.clear_server_tools(gone.url.as_str());
            },
            None => {},
        }
        if let Some(list) = tools {
            self.tool_inventory.insert_server_tools(
                key.url.as_str(),
                list,
                ToolCategory::Dynamic,
            );
        }
        key.url.clone()
    }

    /// Forgets all servers, connections, tools and aliases.
    pub fn shutdown(&mut self)
        requires
            old(self).wf(),
        ensures
            final(self).wf(),
            final(self)@ == empty_state(),
            final(self).connection_pool.entries().len() == 0,
            final(self).connection_pool.capacity() == old(self).connection_pool.capacity(),
            final(self).connection_pool.proxy() == old(self).connection_pool.proxy(),
            final(self).config == old(self).config,
    {
        self.static_clients.clear();
        self.static_records = Vec::new();
        self.connection_pool.clear();
        self.tool_inventory.clear_all();
        assert(self@.records =~= Seq::<RecordView>::empty());
    }
}

/// What a shutdown does next.
#[derive(Debug, Clone, Copy, PartialEq, Eq, Structural)]
pub enum ShutdownStep {
    /// It looks again after so many milliseconds.
    Wait(u64),
    /// It goes on although calls are still running.
    GiveUp,
    /// It goes on.
    Proceed,
}

/// Milliseconds for which a shutdown waits for running calls.
pub const SHUTDOWN_TIMEOUT_MS: u64 = 30000;

/// Milliseconds between two looks at the running calls.
pub const SHUTDOWN_POLL_MS: u64 = 100;

/// What a shutdown does with so many calls running after so many milliseconds.
pub open spec fn step_of_shutdown(active: nat, elapsed_ms: nat) -> ShutdownStep {
    if active == 0 {
        ShutdownStep::Proceed
    } else if elapsed_ms >= 30000 {
        ShutdownStep::GiveUp
    } else {
        ShutdownStep::Wait(100)
    }
}

/// What a shutdown does next, with so many calls running after so many
/// milliseconds.
pub fn shutdown_step(active_executions: usize, elapsed_ms: u64) -> (step: ShutdownStep)
    ensures
        step == step_of_shutdown(active_executions as nat, elapsed_ms as nat),
        step == (if active_executions == 0 {
            ShutdownStep::Proceed
        } else if elapsed_ms >= 30000 {
            ShutdownStep::GiveUp
        } else {
            ShutdownStep::Wait(100)
        }),
{
    if active_executions == 0 {
        ShutdownStep::Proceed
    } else if elapsed_ms >= SHUTDOWN_TIMEOUT_MS {
        ShutdownStep::GiveUp
    } else {
        ShutdownStep::Wait(SHUTDOWN_POLL_MS)
    }
}

// ---------------------------------------------------------------------------
// Calls
// ---------------------------------------------------------------------------

/// What follows on a call that failed.
pub enum ReconnectStep<'a> {
    /// The call is made again: the server was connected anew in the meantime.
    Retry,
    /// The server is connected anew, then the call is made again.
    Reconnect(&'a McpServerConfig),
    /// The call has failed.
    Fail(McpError),
}

/// The position of the server of that name among the configured ones from
/// `from` on; their number where there is none.
pub open spec fn config_index(servers: Seq<McpServerConfig>, name: Seq<char>, from: int) -> int
    decreases servers.len() - from,
{
    if from >= servers.len() {
        servers.len() as int
    } else if servers[from].name@ == name {
        from
    } else {
        config_index(servers, name, from + 1)
    }
}

impl McpOrchestrator {
    /// The tool for a call by qualified name.
    pub fn call_entry(&self, server_key: &str, tool_name: &str) -> (r: Result<ToolEntry, McpError>)
        ensures
            match r {
                Ok(e) => tool_get(self@.inventory.tools, (server_key@, tool_name@)) == Some(e@),
                Err(e) => tool_get(self@.inventory.tools, (server_key@, tool_name@)) is None && e@
                    == ErrorView::ToolNotFound(qualified_text(server_key@, tool_name@)),
            },
    {
        match self.tool_inventory.get_entry(server_key, tool_name) {
            Some(e) => Ok(e),
            None => Err(
                McpError::ToolNotFound(QualifiedToolName::new(server_key, tool_name).to_string()),
            ),
        }
    }

    /// The record of a call by qualified name. Where the tool is not known, the
    /// outcome does not matter.
    pub fn execute_tool_resolved(
        &self,
        input: ToolExecutionInput,
        server_key: &str,
        server_label: &str,
        outcome: CallOutcome,
        duration_ms: u64,
    ) -> (output: ToolExecutionOutput)
        ensures
            records(
                output,
                input.call_id@,
                input.tool_name@,
                input.arguments@,
                server_key@,
                server_label@,
                resolved_outcome(
                    input.tool_name@,
                    server_key@,
                    tool_get(self@.inventory.tools, (server_key@, input.tool_name@)),
                    outcome,
                ),
            ),
            output.duration_ms == duration_ms,
    {
        let entry = self.tool_inventory.get_entry(server_key, input.tool_name.as_str());
        record_resolved(input, server_key, server_label, &entry, outcome, duration_ms)
    }

    /// The client for a call to a server: that of a server of the
    /// configuration, else a pooled one.
    pub fn route(&self, server_key: &str) -> (r: Result<u64, McpError>)
        ensures
            self.is_route(
                server_key@,
                match r {
                    Ok(client) => Some(client),
                    Err(_) => None,
                },
            ),
            match r {
                Ok(client) => if self@.clients.contains_key(server_key@) {
                    client == self@.clients[server_key@]
                } else {
                    let entries = self.connection_pool.entries();
                    let at = McpConnectionPool::url_index(entries, server_key@, 0);
                    at < entries.len() && client == entries[at].1
                },
                Err(e) => {
                    let entries = self.connection_pool.entries();
                    &&& !self@.clients.contains_key(server_key@)
                    &&& McpConnectionPool::url_index(entries, server_key@, 0) >= entries.len()
                    &&& e@ == ErrorView::ServerNotFound(server_key@)
                },
            },
    {
        match self.static_clients.get(server_key) {
            Some(client) => Ok(client),
            None => match self.connection_pool.get_by_url(server_key) {
                Some(client) => Ok(client),
                None => Err(McpError::ServerNotFound(server_key.to_owned())),
            },
        }
    }

    /// What follows on a call that failed, where `initial_client` is the client
    /// of the server when the call was made. Only a lost connection is
    /// recovered from.
    pub fn after_call_failure(&self, initial_client: Option<u64>, error: McpError) -> (step:
        ReconnectStep<'_>)
        ensures
            match error@ {
                ErrorView::ServerDisconnected(name) => {
                    let at = config_index(self.config.servers@, name, 0);
                    if self@.clients.contains_key(name) && initial_client != Some(
                        self@.clients[name],
                    ) {
                        step is Retry
                    } else if at < self.config.servers@.len() {
                        step matches ReconnectStep::Reconnect(c) && *c == self.config.servers@[at]
                    } else {
                        step matches ReconnectStep::Fail(e) && e@ == ErrorView::ServerNotFound(name)
                    }
                },
                _ => step matches ReconnectStep::Fail(e) && e == error,
            },
    {
        match error {
            McpError::ServerDisconnected(name) => {
                if let Some(current) = self.static_clients.get(name.as_str()) {
                    let replaced: bool = match initial_client {
                        Some(initial) => initial != current,
                        None => true,
                    };
                    if replaced {
                        return ReconnectStep::Retry;
                    }
                }
                let servers = &self.config.servers;
                let mut i: usize = 0;
                while i < servers.len()
                    invariant
                        servers@ == self.config.servers@,
                        i <= servers@.len(),
                        config_index(servers@, name@, 0) == config_index(servers@, name@, i as int),
                        error@ == ErrorView::ServerDisconnected(name@),
                        !(self@.clients.contains_key(name@) && initial_client != Some(
                            self@.clients[name@],
                        )),
                    decreases servers@.len() - i,
                {
                    if text_eq(servers[i].name.as_str(), name.as_str()) {
                        return ReconnectStep::Reconnect(&servers[i]);
                    }
                    i += 1;
                }
                ReconnectStep::Fail(McpError::ServerNotFound(name))
            },
            other => ReconnectStep::Fail(other),
        }
    }
}

// ---------------------------------------------------------------------------
// Queries
// ---------------------------------------------------------------------------

/// The first of the records, from `from` on, with a tool for a built-in type.
pub open spec fn first_builtin_record(
    records: Seq<RecordView>,
    t: BuiltinToolType,
    from: int,
) -> Option<(Seq<char>, Seq<char>, ResponseFormat)>
    decreases records.len() - from,
{
    if from >= records.len() {
        None
    } else {
        match records[from].builtin {
            Some(b) if b.0 == t => Some((records[from].name, b.1, b.2)),
            _ => first_builtin_record(records, t, from + 1),
        }
    }
}

/// The records of a list of servers.
pub open spec fn records_of(servers: Seq<McpServerConfig>) -> Seq<RecordView> {
    Seq::new(servers.len(), |i: int| record_of(servers[i]))
}

/// The server and tool for a built-in type: among the connected servers, else
/// among the configured ones.
pub open spec fn builtin_server(
    connected: Seq<RecordView>,
    servers: Seq<McpServerConfig>,
    t: BuiltinToolType,
) -> Option<(Seq<char>, Seq<char>, ResponseFormat)> {
    match first_builtin_record(connected, t, 0) {
        Some(found) => Some(found),
        None => first_builtin_record(records_of(servers), t, 0),
    }
}

/// The view of a server, a tool and a format.
pub open spec fn builtin_view(r: Option<(String, String, ResponseFormat)>) -> Option<
    (Seq<char>, Seq<char>, ResponseFormat),
> {
    match r {
        Some(b) => Some((b.0@, b.1@, b.2)),
        None => None,
    }
}

/// Whether a name belongs to a server with the given property, connected or
/// configured.
pub open spec fn some_server(
    connected: Seq<RecordView>,
    servers: Seq<McpServerConfig>,
    name: Seq<char>,
    has: spec_fn(RecordView) -> bool,
) -> bool {
    ||| exists|i: int|
        0 <= i < connected.len() && (#[trigger] connected[i]).name == name && has(connected[i])
    ||| exists|i: int|
        0 <= i < servers.len() && (#[trigger] servers[i]).name@ == name && has(
            record_of(servers[i]),
        )
}

/// Whether a name belongs to a server with a built-in type.
pub open spec fn is_builtin_server(
    connected: Seq<RecordView>,
    servers: Seq<McpServerConfig>,
    name: Seq<char>,
) -> bool {
    some_server(connected, servers, name, |r: RecordView| r.has_builtin_type)
}

/// Whether a name belongs to an internal server.
pub open spec fn is_internal_server(
    connected: Seq<RecordView>,
    servers: Seq<McpServerConfig>,
    name: Seq<char>,
) -> bool {
    some_server(connected, servers, name, |r: RecordView| r.internal)
}

impl McpOrchestrator {
    /// The server, the tool and the response format for a built-in type, where
    /// a server is configured for it.
    pub fn find_builtin_server(&self, builtin_type: BuiltinToolType) -> (r: Option<
        (String, String, ResponseFormat),
    >)
        ensures
            builtin_view(r) == builtin_server(
                self@.records,
                self.config.servers@,
                builtin_type,
            ),
    {
        let mut i: usize = 0;
        while i < self.static_records.len()
            invariant
                i <= self.static_records@.len(),
                first_builtin_record(self@.records, builtin_type, 0) == first_builtin_record(
                    self@.records,
                    builtin_type,
                    i as int,
                ),
            decreases self.static_records@.len() - i,
        {
            let record = &self.static_records[i];
            assert(self@.records[i as int] == record@);
            if let Some(b) = &record.builtin {
                if b.0 == builtin_type {
                    return Some((record.name.clone(), b.1.clone(), b.2));
                }
            }
            i += 1;
        }
        let servers = &self.config.servers;
        let mut j: usize = 0;
        while j < servers.len()
            invariant
                servers@ == self.config.servers@,
                j <= servers@.len(),
                first_builtin_record(self@.records, builtin_type, 0) is None,
                first_builtin_record(records_of(servers@), builtin_type, 0)
                    == first_builtin_record(records_of(servers@), builtin_type, j as int),
            decreases servers@.len() - j,
        {
            let record = ServerRecord::of(&servers[j]);
            assert(records_of(servers@)[j as int] == record@);
            if let Some(b) = &record.builtin {
                if b.0 == builtin_type {
                    return Some((record.name.clone(), b.1.clone(), b.2));
                }
            }
            j += 1;
        }
        None
    }

    /// The names of the servers with a built-in type.
    pub fn builtin_server_names(&self) -> (names: Vec<String>)
        ensures
            forall|name: Seq<char>| #[trigger]
                views(names@).contains(name) <==> is_builtin_server(
                    self@.records,
                    self.config.servers@,
                    name,
                ),
    {
        let ghost has = |r: RecordView| r.has_builtin_type;
        let mut names: Vec<String> = Vec::new();
        for i in 0..self.static_records.len()
            invariant
                has == (|r: RecordView| r.has_builtin_type),
                forall|name: Seq<char>| #[trigger]
                    views(names@).contains(name) <==> some_server(
                        self@.records.take(i as int),
                        Seq::empty(),
                        name,
                        has,
                    ),
        {
            let record = &self.static_records[i];
            let ghost before = names@;
            if record.has_builtin_type {
                names.push(record.name.clone());
            }
            proof {
                lemma_more_records(self@.records, i as int, has);
                lemma_views_push(before, record.name);
            }
        }
        proof {
            assert(self@.records.take(self.static_records@.len() as int) =~= self@.records);
            assert(self.config.servers@.take(0) =~= Seq::<McpServerConfig>::empty());
        }
        let servers = &self.config.servers;
        for i in 0..servers.len()
            invariant
                servers@ == self.config.servers@,
                has == (|r: RecordView| r.has_builtin_type),
                forall|name: Seq<char>| #[trigger]
                    views(names@).contains(name) <==> some_server(
                        self@.records,
                        servers@.take(i as int),
                        name,
                        has,
                    ),
        {
            let server = &servers[i];
            let ghost before = names@;
            if server.builtin_type.is_some() {
                names.push(server.name.clone());
            }
            proof {
                lemma_more_servers(self@.records, servers@, i as int, has);
                lemma_views_push(before, server.name);
            }
        }
        assert(servers@.take(servers@.len() as int) =~= servers@);
        names
    }

    /// The names of the internal servers.
    pub fn internal_server_names(&self) -> (names: Vec<String>)
        ensures
            forall|name: Seq<char>| #[trigger]
                views(names@).contains(name) <==> is_internal_server(
                    self@.records,
                    self.config.servers@,
                    name,
                ),
    {
        let ghost has = |r: RecordView| r.internal;
        let mut names: Vec<String> = Vec::new();
        for i in 0..self.static_records.len()
            invariant
                has == (|r: RecordView| r.internal),
                forall|name: Seq<char>| #[trigger]
                    views(names@).contains(name) <==> some_server(
                        self@.records.take(i as int),
                        Seq::empty(),
                        name,
                        has,
                    ),
        {
            let record = &self.static_records[i];
            let ghost before = names@;
            if record.internal {
                names.push(record.name.clone());
            }
            proof {
                lemma_more_records(self@.records, i as int, has);
                lemma_views_push(before, record.name);
            }
        }
        proof {
            assert(self@.records.take(self.static_records@.len() as int) =~= self@.records);
            assert(self.config.servers@.take(0) =~= Seq::<McpServerConfig>::empty());
        }
        let servers = &self.config.servers;
        for i in 0..servers.len()
            invariant
                servers@ == self.config.servers@,
                has == (|r: RecordView| r.internal),
                forall|name: Seq<char>| #[trigger]
                    views(names@).contains(name) <==> some_server(
                        self@.records,
                        servers@.take(i as int),
                        name,
                        has,
                    ),
        {
            let server = &servers[i];
            let ghost before = names@;
            if server.internal {
                names.push(server.name.clone());
            }
            proof {
                lemma_more_servers(self@.records, servers@, i as int, has);
                lemma_views_push(before, server.name);
            }
        }
        assert(servers@.take(servers@.len() as int) =~= servers@);
        names
    }

    /// All tools.
    pub fn list_tools(&self) -> (r: Vec<ToolEntry>)
        ensures
            tool_views(r@) == self@.inventory.tools,
    {
        self.tool_inventory.entries()
    }

    /// The tools of the given servers.
    pub fn list_tools_for_servers(&self, server_keys: &Vec<String>) -> (r: Vec<ToolEntry>)
        ensures
            tool_views(r@) == of_servers(self@.inventory.tools, views(server_keys@)),
    {
        self.tool_inventory.entries_of(server_keys)
    }

    /// The tool with the given name.
    pub fn get_tool(&self, server_key: &str, tool_name: &str) -> (r: Option<ToolEntry>)
        ensures
            match r {
                Some(e) => tool_get(self@.inventory.tools, (server_key@, tool_name@)) == Some(e@),
                None => tool_get(self@.inventory.tools, (server_key@, tool_name@)) is None,
            },
    {
        self.tool_inventory.get_entry(server_key, tool_name)
    }

    /// All known tools.
    pub fn tool_inventory(&self) -> (r: &ToolInventory)
        ensures
            *r == self.tool_inventory,
    {
        &self.tool_inventory
    }

    /// Whether there is a tool with the given name.
    pub fn has_tool(&self, server_key: &str, tool_name: &str) -> (r: bool)
        ensures
            r == (tool_get(self@.inventory.tools, (server_key@, tool_name@)) is Some),
    {
        self.tool_inventory.has_tool_qualified(server_key, tool_name)
    }

    /// Whether a server is connected, by configuration or through the pool.
    pub open spec fn is_listed(self, name: Seq<char>) -> bool {
        ||| self@.clients.contains_key(name)
        ||| exists|i: int|
            0 <= i < self.connection_pool.entries().len() && (
            #[trigger] self.connection_pool.entries()[i]).0.0 == name
    }

    /// All connected servers in the order of their names, each one once.
    pub fn list_servers(&self) -> (servers: Vec<String>)
        ensures
            ascending(views(servers@)),
            forall|name: Seq<char>| #[trigger]
                views(servers@).contains(name) <==> self.is_listed(name),
    {
        let mut servers = self.static_clients.names();
        let ghost fixed = views(servers@);
        let keys = self.connection_pool.list_keys();
        let ghost entries = self.connection_pool.entries();
        for i in 0..keys.len()
            invariant
                keys@.len() == entries.len(),
                entries == self.connection_pool.entries(),
                forall|j: int| 0 <= j < keys@.len() ==> (#[trigger] keys@[j])@ == entries[j].0,
                forall|name: Seq<char>| #[trigger]
                    fixed.contains(name) <==> self@.clients.contains_key(name),
                forall|name: Seq<char>| #[trigger]
                    views(servers@).contains(name) <==> fixed.contains(name) || exists|j: int|
                        0 <= j < i && (#[trigger] entries[j]).0.0 == name,
        {
            let ghost before = servers@;
            servers.push(keys[i].url.clone());
            proof {
                lemma_views_push(before, keys@[i as int].url);
                assert(keys@[i as int]@ == entries[i as int].0);
                assert forall|name: Seq<char>| #[trigger]
                    views(servers@).contains(name) <==> fixed.contains(name) || exists|j: int|
                        0 <= j < i + 1 && (#[trigger] entries[j]).0.0 == name by {
                    assert(views(servers@).contains(name) <==> views(before).contains(name) || name
                        == keys@[i as int].url@);
                    if views(before).contains(name) && !fixed.contains(name) {
                        let j = choose|j: int| 0 <= j < i && (#[trigger] entries[j]).0.0 == name;
                        assert(entries[j].0.0 == name);
                    }
                    if name == keys@[i as int].url@ {
                        assert(entries[i as int].0.0 == name);
                    }
                    if exists|j: int| 0 <= j < i + 1 && (#[trigger] entries[j]).0.0 == name {
                        let j = choose|j: int|
                            0 <= j < i + 1 && (#[trigger] entries[j]).0.0 == name;
                        if j < i {
                            assert(views(before).contains(name));
                        }
                    }
                }
            }
        }
        let r = sort_distinct(&servers);
        assert forall|name: Seq<char>| #[trigger] views(r@).contains(name) <==> self.is_listed(
            name,
        ) by {
            assert(views(r@).contains(name) <==> views(servers@).contains(name));
            assert(fixed.contains(name) <==> self@.clients.contains_key(name));
        }
        r
    }

    /// The approval mode of an API: interactive where it can ask the user.
    pub fn determine_approval_mode(supports_mcp_approval: bool) -> (mode: ApprovalMode)
        ensures
            mode == (if supports_mcp_approval {
                ApprovalMode::Interactive
            } else {
                ApprovalMode::PolicyOnly
            }),
    {
        if supports_mcp_approval {
            ApprovalMode::Interactive
        } else {
            ApprovalMode::PolicyOnly
        }
    }
}

proof fn lemma_views_push(list: Seq<String>, item: String)
    ensures
        forall|name: Seq<char>| #[trigger]
            views(list.push(item)).contains(name) <==> views(list).contains(name) || name == item@,
{
    assert(views(list.push(item)) =~= views(list).push(item@));
    assert forall|name: Seq<char>| #[trigger] views(list.push(item)).contains(name) <==> views(
        list,
    ).contains(name) || name == item@ by {
        let after = views(list).push(item@);
        if views(list).contains(name) {
            let k = choose|k: int| 0 <= k < views(list).len() && views(list)[k] == name;
            assert(after[k] == name);
        }
        if name == item@ {
            assert(after[views(list).len() as int] == name);
        }
    }
}

proof fn lemma_more_records(records: Seq<RecordView>, i: int, has: spec_fn(RecordView) -> bool)
    requires
        0 <= i < records.len(),
    ensures
        forall|name: Seq<char>| #[trigger]
            some_server(records.take(i + 1), Seq::empty(), name, has) <==> some_server(
                records.take(i),
                Seq::empty(),
                name,
                has,
            ) || (records[i].name == name && has(records[i])),
{
    let long = records.take(i + 1);
    let short = records.take(i);
    assert forall|name: Seq<char>| #[trigger]
        some_server(long, Seq::empty(), name, has) <==> some_server(
            short,
            Seq::empty(),
            name,
            has,
        ) || (records[i].name == name && has(records[i])) by {
        if some_server(short, Seq::empty(), name, has) {
            let k = choose|k: int|
                0 <= k < short.len() && (#[trigger] short[k]).name == name && has(short[k]);
            assert(long[k] == short[k]);
        }
        if records[i].name == name && has(records[i]) {
            assert(long[i] == records[i]);
        }
        if some_server(long, Seq::empty(), name, has) {
            let k = choose|k: int|
                0 <= k < long.len() && (#[trigger] long[k]).name == name && has(long[k]);
            if k < i {
                assert(short[k] == long[k]);
            }
        }
    }
}

proof fn lemma_more_servers(
    records: Seq<RecordView>,
    servers: Seq<McpServerConfig>,
    i: int,
    has: spec_fn(RecordView) -> bool,
)
    requires
        0 <= i < servers.len(),
    ensures
        forall|name: Seq<char>| #[trigger]
            some_server(records, servers.take(i + 1), name, has) <==> some_server(
                records,
                servers.take(i),
                name,
                has,
            ) || (servers[i].name@ == name && has(record_of(servers[i]))),
{
    let long = servers.take(i + 1);
    let short = servers.take(i);
    assert forall|name: Seq<char>| #[trigger]
        some_server(records, long, name, has) <==> some_server(records, short, name, has) || (
        servers[i].name@ == name && has(record_of(servers[i]))) by {
        if exists|k: int|
            0 <= k < short.len() && (#[trigger] short[k]).name@ == name && has(
                record_of(short[k]),
            ) {
            let k = choose|k: int|
                0 <= k < short.len() && (#[trigger] short[k]).name@ == name && has(
                    record_of(short[k]),
                );
            assert(long[k] == short[k]);
        }
        if servers[i].name@ == name && has(record_of(servers[i])) {
            assert(long[i] == servers[i]);
        }
        if exists|k: int|
            0 <= k < long.len() && (#[trigger] long[k]).name@ == name && has(record_of(long[k])) {
            let k = choose|k: int|
                0 <= k < long.len() && (#[trigger] long[k]).name@ == name && has(
                    record_of(long[k]),
                );
            if k < i {
                assert(short[k] == long[k]);
            }
        }
    }
}

/// A copy of an optional proxy.
fn clone_proxy(proxy: &Option<crate::config::McpProxyConfig>) -> (copy: Option<
    crate::config::McpProxyConfig,
>)
    ensures
        copy == *proxy,
{
    match proxy {
        Some(p) => Some(
            crate::config::McpProxyConfig {
                http: clone_opt(&p.http),
                https: clone_opt(&p.https),
                no_proxy: clone_opt(&p.no_proxy),
                username: clone_opt(&p.username),
                password: clone_opt(&p.password),
            },
        ),
        None => None,
    }
}

} // verus!

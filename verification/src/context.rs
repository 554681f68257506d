//! State of one request: its tenant, its approval mode, and the servers that it
//! brought along for itself alone.

use vstd::prelude::*;

use crate::approval::{ApprovalMode, HandlerRequestContext, TenantContext};
use crate::clients::{no_clients, ClientTable};
use crate::config::McpServerConfig;
use crate::error::{ErrorView, McpError};
use crate::execution::{make_request, requests, CallRequest};
use crate::inventory::{
    empty_inventory, qualified_text, tool_get, tool_views, with_server_tools, InventoryView,
    ToolCategory, ToolEntry, ToolInventory,
};
use crate::json::Json;
use crate::orchestrator::{
    connection_view, ConnectionView, McpOrchestrator, StaticConnection,
};
use crate::text::views;

verus! {

broadcast use vstd::string::group_string_axioms;

/// State of one request.
pub struct McpRequestContext<'a> {
    pub orchestrator: &'a McpOrchestrator,
    pub request_id: String,
    pub tenant_ctx: TenantContext,
    pub approval_mode: ApprovalMode,
    /// Tools of servers that only this request uses.
    pub dynamic_tools: ToolInventory,
    /// Clients of those servers.
    pub dynamic_clients: ClientTable,
}

/// How a tool is called in a request.
pub enum CallTarget {
    /// On a server that only this request uses, by that client.
    Dynamic { entry: ToolEntry, client: u64 },
    /// On a server that all requests share.
    Shared(ToolEntry),
}

impl McpOrchestrator {
    /// The state of a new request.
    pub fn create_request_context<'a>(
        &'a self,
        request_id: &str,
        tenant_ctx: TenantContext,
        approval_mode: ApprovalMode,
    ) -> (ctx: McpRequestContext<'a>)
        ensures
            ctx.wf(),
            *ctx.orchestrator == *self,
            ctx.request_id@ == request_id@,
            ctx.tenant_ctx == tenant_ctx,
            ctx.approval_mode == approval_mode,
            ctx.dynamic_tools@ == empty_inventory(),
            ctx.dynamic_clients@ == no_clients(),
    {
        McpRequestContext {
            orchestrator: self,
            request_id: request_id.to_owned(),
            tenant_ctx,
            approval_mode,
            dynamic_tools: ToolInventory::new(),
            dynamic_clients: ClientTable::new(),
        }
    }
}

impl<'a> McpRequestContext<'a> {
    /// The tools and clients of the request's own servers, with one server more.
    pub open spec fn with_server(self, name: Seq<char>, connection: ConnectionView) -> (
        InventoryView,
        Map<Seq<char>, u64>,
    ) {
        (
            InventoryView {
                tools: match connection.tools {
                    Some(list) => with_server_tools(
                        self.dynamic_tools@.tools,
                        name,
                        list,
                        ToolCategory::Dynamic,
                    ),
                    None => self.dynamic_tools@.tools,
                },
                ..self.dynamic_tools@
            },
            self.dynamic_clients@.insert(name, connection.client),
        )
    }

    /// Whether a call of a tool of a server goes to `target`: to the request's own
    /// server, or else to a shared one.
    pub open spec fn is_target(
        self,
        target: Result<CallTarget, McpError>,
        name: (Seq<char>, Seq<char>),
    ) -> bool {
        match tool_get(self.dynamic_tools@.tools, name) {
            Some(own) => if self.dynamic_clients@.contains_key(name.0) {
                target matches Ok(CallTarget::Dynamic { entry, client }) && entry@ == own && client
                    == self.dynamic_clients@[name.0]
            } else {
                target matches Err(e) && e@ == ErrorView::ServerNotFound(name.0)
            },
            None => match tool_get(self.orchestrator@.inventory.tools, name) {
                Some(shared) => target matches Ok(CallTarget::Shared(entry)) && entry@ == shared,
                None => target matches Err(e) && e@ == ErrorView::ToolNotFound(
                    qualified_text(name.0, name.1),
                ),
            },
        }
    }

    /// What always holds of the state of a request.
    pub open spec fn wf(self) -> bool {
        self.dynamic_tools.wf()
    }

    /// What the handlers of the server connections are to know of the request.
    pub fn handler_context(&self) -> (r: HandlerRequestContext)
        ensures
            r.request_id == self.request_id,
            r.approval_mode == self.approval_mode,
            r.tenant_ctx.tenant_id == self.tenant_ctx.tenant_id,
    {
        HandlerRequestContext {
            request_id: self.request_id.clone(),
            approval_mode: self.approval_mode,
            tenant_ctx: TenantContext { tenant_id: self.tenant_ctx.tenant_id.clone() },
        }
    }

    /// Takes in what came of connecting a server for this request alone. The
    /// error of a failed attempt is handed back.
    pub fn add_dynamic_server(
        &mut self,
        config: &McpServerConfig,
        connection: &Result<StaticConnection, McpError>,
    ) -> (r: Result<(), McpError>)
        requires
            old(self).wf(),
        ensures
            final(self).wf(),
            *final(self).orchestrator == *old(self).orchestrator,
            final(self).request_id == old(self).request_id,
            final(self).tenant_ctx == old(self).tenant_ctx,
            final(self).approval_mode == old(self).approval_mode,
            (final(self).dynamic_tools@, final(self).dynamic_clients@) == (match connection_view(
                *connection,
            ) {
                Ok(c) => old(self).with_server(config.name@, c),
                Err(_) => (old(self).dynamic_tools@, old(self).dynamic_clients@),
            }),
            match connection_view(*connection) {
                Err(bad) => r matches Err(e) && e@ == bad && final(self).dynamic_tools@ == old(
                    self,
                ).dynamic_tools@ && final(self).dynamic_clients@ == old(self).dynamic_clients@,
                Ok(c) => {
                    &&& r is Ok
                    &&& final(self).dynamic_clients@ == old(self).dynamic_clients@.insert(
                        config.name@,
                        c.client,
                    )
                    &&& final(self).dynamic_tools@ == (InventoryView {
                        tools: match c.tools {
                            Some(list) => with_server_tools(
                                old(self).dynamic_tools@.tools,
                                config.name@,
                                list,
                                ToolCategory::Dynamic,
                            ),
                            None => old(self).dynamic_tools@.tools,
                        },
                        ..old(self).dynamic_tools@
                    })
                },
            },
    {
        match connection {
            Err(e) => Err(e.clone()),
            Ok(c) => {
                if let Some(tools) = &c.tools {
                    self.dynamic_tools.insert_server_tools(
                        config.name.as_str(),
                        tools,
                        ToolCategory::Dynamic,
                    );
                }
                self.dynamic_clients.insert(config.name.as_str(), c.client);
                Ok(())
            },
        }
    }

    /// How a tool is called in this request: on a server of its own where it
    /// has the tool, else on a shared one.
    pub fn resolve_call(&self, server_key: &str, tool_name: &str) -> (r: Result<
        CallTarget,
        McpError,
    >)
        ensures
            self.is_target(r, (server_key@, tool_name@)),
            match tool_get(self.dynamic_tools@.tools, (server_key@, tool_name@)) {
                Some(own) => if self.dynamic_clients@.contains_key(server_key@) {
                    r matches Ok(CallTarget::Dynamic { entry, client }) && entry@ == own && client
                        == self.dynamic_clients@[server_key@]
                } else {
                    r matches Err(e) && e@ == ErrorView::ServerNotFound(server_key@)
                },
                None => match tool_get(
                    self.orchestrator@.inventory.tools,
                    (server_key@, tool_name@),
                ) {
                    Some(shared) => r matches Ok(CallTarget::Shared(entry)) && entry@ == shared,
                    None => r matches Err(e) && e@ == ErrorView::ToolNotFound(
                        qualified_text(server_key@, tool_name@),
                    ),
                },
            },
    {
        match self.dynamic_tools.get_entry(server_key, tool_name) {
            Some(entry) => match self.dynamic_clients.get(server_key) {
                Some(client) => Ok(CallTarget::Dynamic { entry, client }),
                None => Err(McpError::ServerNotFound(server_key.to_owned())),
            },
            None => match self.orchestrator.call_entry(server_key, tool_name) {
                Ok(entry) => Ok(CallTarget::Shared(entry)),
                Err(e) => Err(e),
            },
        }
    }

    /// The request for a call on a server of this request alone: the tool's own
    /// name and the arguments as they are.
    pub fn dynamic_request(entry: &ToolEntry, arguments: Json) -> (request: CallRequest)
        ensures
            requests(request, entry@.name.1, arguments@),
    {
        make_request(entry.tool_name(), arguments)
    }

    /// All tools that this request can use: the shared ones, then its own.
    pub fn list_tools(&self) -> (r: Vec<ToolEntry>)
        ensures
            tool_views(r@) == self.orchestrator@.inventory.tools + self.dynamic_tools@.tools,
    {
        let mut r = self.orchestrator.list_tools();
        let mut own = self.dynamic_tools.entries();
        let ghost shared = tool_views(r@);
        let ghost dynamic = tool_views(own@);
        r.append(&mut own);
        assert(tool_views(r@) =~= shared + dynamic);
        r
    }

    /// The servers that only this request uses: each one once, in no particular
    /// order.
    pub fn dynamic_server_keys(&self) -> (keys: Vec<String>)
        ensures
            views(keys@).no_duplicates(),
            forall|name: Seq<char>| #[trigger]
                views(keys@).contains(name) <==> self.dynamic_clients@.contains_key(name),
    {
        self.dynamic_clients.names()
    }
}

} // verus!

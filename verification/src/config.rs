//! Configuration of MCP servers, transports, proxies, the connection pool, the
//! tool inventory and the approval policy.

use vstd::prelude::*;

use crate::json::Json;
use crate::order::{pair_list, Pair};
use crate::text::{clone_list, decimal, decimal_text, opt_view, text_eq, views};

verus! {

broadcast use vstd::string::group_string_axioms;

// ---------------------------------------------------------------------------
// Types
// ---------------------------------------------------------------------------

/// The whole MCP configuration.
#[derive(Clone)]
pub struct McpConfig {
    /// Static servers, connected at startup.
    pub servers: Vec<McpServerConfig>,
    /// Connection pool settings.
    pub pool: McpPoolConfig,
    /// Proxy for all servers that have none of their own.
    pub proxy: Option<McpProxyConfig>,
    /// Connections to open at startup.
    pub warmup: Vec<WarmupServer>,
    /// Tool inventory refresh settings.
    pub inventory: InventoryConfig,
    /// Approval policy.
    pub policy: PolicyConfig,
}

/// Policy for tool approval decisions: explicit tool policies first, then
/// server policies, then the default.
#[derive(Debug, Clone)]
pub struct PolicyConfig {
    /// The decision when no other rule matches.
    pub default: PolicyDecisionConfig,
    /// Policies by server.
    pub servers: Vec<(String, ServerPolicyConfig)>,
    /// Policies by qualified tool name, `server:tool`.
    pub tools: Vec<(String, PolicyDecisionConfig)>,
}

/// Policy for the tools of one server.
#[derive(Debug, Clone)]
pub struct ServerPolicyConfig {
    /// How far the server is trusted.
    pub trust_level: TrustLevelConfig,
    /// The decision for its tools.
    pub default: PolicyDecisionConfig,
}

/// How far an MCP server is trusted.
#[derive(Debug, Clone, Copy, PartialEq, Eq, Structural)]
pub enum TrustLevelConfig {
    Trusted,
    Standard,
    Untrusted,
    Sandboxed,
}

/// A policy decision.
#[derive(Debug, Clone, PartialEq, Eq)]
pub enum PolicyDecisionConfig {
    Allow,
    Deny,
    /// Deny, and say why.
    DenyWithReason(String),
}

/// The two shapes in which a policy decision is written down: a word, or one
/// entry that gives the reason.
#[derive(Debug, Clone, PartialEq, Eq)]
pub enum PolicyWire {
    Word(String),
    Entry { key: String, reason: String },
}

/// One MCP server.
#[derive(Clone)]
pub struct McpServerConfig {
    pub name: String,
    pub transport: McpTransport,
    /// Proxy for this server, in place of the global one.
    pub proxy: Option<McpProxyConfig>,
    /// Whether startup fails when this server cannot be reached.
    pub required: bool,
    /// Settings by tool name.
    pub tools: Option<Vec<(String, ToolConfig)>>,
    /// The built-in tool type that this server handles.
    pub builtin_type: Option<BuiltinToolType>,
    /// The tool of this server that is called for the built-in type.
    pub builtin_tool_name: Option<String>,
    /// Whether the tools of this server are kept out of client-visible output.
    pub internal: bool,
}

/// Why a configuration is refused.
#[derive(Debug, Clone, PartialEq, Eq)]
pub enum ConfigValidationError {
    /// `builtin_type` is set but `builtin_tool_name` is missing.
    MissingBuiltinToolName { server: String },
    /// `builtin_tool_name` is set but `builtin_type` is missing.
    MissingBuiltinType { server: String, tool_name: String },
    /// Two servers are configured for one `builtin_type`.
    DuplicateBuiltinType {
        builtin_type: BuiltinToolType,
        first_server: String,
        second_server: String,
    },
}

/// Built-in tool types that can be routed to MCP servers.
#[derive(Debug, Clone, Copy, PartialEq, Eq, Hash, Structural)]
pub enum BuiltinToolType {
    WebSearchPreview,
    CodeInterpreter,
    FileSearch,
}

/// Settings of one tool of an MCP server.
#[derive(Debug, Clone)]
pub struct ToolConfig {
    /// Another name under which the tool is reached.
    pub alias: Option<String>,
    /// How its results are presented.
    pub response_format: ResponseFormatConfig,
    /// How its arguments are rewritten.
    pub arg_mapping: Option<ArgMappingConfig>,
}

/// How the results of a tool are presented.
#[derive(Debug, Clone, Copy, PartialEq, Eq, Structural)]
pub enum ResponseFormatConfig {
    Passthrough,
    WebSearchCall,
    CodeInterpreterCall,
    FileSearchCall,
}

/// How the arguments of a tool are rewritten.
#[derive(Debug, Clone)]
pub struct ArgMappingConfig {
    /// Argument names to replace, with their replacements.
    pub renames: Vec<(String, String)>,
    /// Values for arguments that are missing.
    pub defaults: Vec<(String, Json)>,
}

/// How an MCP server is reached.
#[derive(Clone)]
pub enum McpTransport {
    Stdio { command: String, args: Vec<String>, envs: Vec<(String, String)> },
    Sse { url: String, token: Option<String>, headers: Vec<(String, String)> },
    Streamable { url: String, token: Option<String>, headers: Vec<(String, String)> },
}

/// A transport without its secrets, fit for logs.
#[derive(Debug, Clone)]
pub enum RedactedTransport {
    Stdio { command: String, args: Vec<String>, envs: Vec<(String, String)> },
    Sse { url: String, token: Option<String>, headers: String },
    Streamable { url: String, token: Option<String>, headers: String },
}

/// Proxy for MCP traffic.
#[derive(Debug, Clone)]
pub struct McpProxyConfig {
    pub http: Option<String>,
    pub https: Option<String>,
    /// Comma-separated hosts that are reached directly.
    pub no_proxy: Option<String>,
    pub username: Option<String>,
    pub password: Option<String>,
}

/// Connection pool settings.
#[derive(Debug, Clone)]
pub struct McpPoolConfig {
    /// The most connections that are kept.
    pub max_connections: usize,
    /// Seconds after which an idle connection is closed.
    pub idle_timeout: u64,
}

/// Tool inventory refresh settings.
#[derive(Debug, Clone)]
pub struct InventoryConfig {
    pub enable_refresh: bool,
    /// Seconds for which tools count as fresh.
    pub tool_ttl: u64,
    /// Seconds between background refreshes.
    pub refresh_interval: u64,
    /// Whether a failed call triggers a refresh.
    pub refresh_on_error: bool,
}

/// A connection to open at startup.
#[derive(Debug, Clone)]
pub struct WarmupServer {
    pub url: String,
    pub label: String,
    pub token: Option<String>,
}

// ---------------------------------------------------------------------------
// Defaults
// ---------------------------------------------------------------------------

/// The decision where none is configured.
pub fn default_allow() -> (r: PolicyDecisionConfig)
    ensures
        r == PolicyDecisionConfig::Allow,
{
    PolicyDecisionConfig::Allow
}

/// The pool size where none is configured.
pub fn default_max_connections() -> (r: usize)
    ensures
        r == 100,
{
    100
}

/// The idle timeout where none is configured: five minutes.
pub fn default_idle_timeout() -> (r: u64)
    ensures
        r == 300,
{
    300
}

/// The value of a switch that is on where it is not configured.
pub fn default_true() -> (r: bool)
    ensures
        r,
{
    true
}

/// The time for which tools are fresh where none is configured: five minutes.
pub fn default_tool_ttl() -> (r: u64)
    ensures
        r == 300,
{
    300
}

/// The refresh interval where none is configured: one minute.
pub fn default_refresh_interval() -> (r: u64)
    ensures
        r == 60,
{
    60
}

impl Default for TrustLevelConfig {
    fn default() -> (r: Self)
        ensures
            r == TrustLevelConfig::Standard,
    {
        TrustLevelConfig::Standard
    }
}

impl Default for PolicyDecisionConfig {
    fn default() -> (r: Self)
        ensures
            r == PolicyDecisionConfig::Allow,
    {
        PolicyDecisionConfig::Allow
    }
}

impl Default for PolicyConfig {
    fn default() -> (r: Self)
        ensures
            r.default == PolicyDecisionConfig::Allow,
            r.servers@.len() == 0,
            r.tools@.len() == 0,
    {
        PolicyConfig {
            default: PolicyDecisionConfig::Allow,
            servers: Vec::new(),
            tools: Vec::new(),
        }
    }
}

impl Default for ServerPolicyConfig {
    fn default() -> (r: Self)
        ensures
            r.trust_level == TrustLevelConfig::Standard,
            r.default == PolicyDecisionConfig::Allow,
    {
        ServerPolicyConfig {
            trust_level: TrustLevelConfig::Standard,
            default: PolicyDecisionConfig::Allow,
        }
    }
}

impl Default for ResponseFormatConfig {
    fn default() -> (r: Self)
        ensures
            r == ResponseFormatConfig::Passthrough,
    {
        ResponseFormatConfig::Passthrough
    }
}

impl Default for ArgMappingConfig {
    fn default() -> (r: Self)
        ensures
            r.renames@.len() == 0,
            r.defaults@.len() == 0,
    {
        ArgMappingConfig { renames: Vec::new(), defaults: Vec::new() }
    }
}

impl Default for ToolConfig {
    fn default() -> (r: Self)
        ensures
            r.alias is None,
            r.response_format == ResponseFormatConfig::Passthrough,
            r.arg_mapping is None,
    {
        ToolConfig {
            alias: None,
            response_format: ResponseFormatConfig::Passthrough,
            arg_mapping: None,
        }
    }
}

impl Default for McpPoolConfig {
    fn default() -> (r: Self)
        ensures
            r.max_connections == 100,
            r.idle_timeout == 300,
    {
        McpPoolConfig {
            max_connections: default_max_connections(),
            idle_timeout: default_idle_timeout(),
        }
    }
}

impl Default for InventoryConfig {
    fn default() -> (r: Self)
        ensures
            r.enable_refresh,
            r.tool_ttl == 300,
            r.refresh_interval == 60,
            r.refresh_on_error,
    {
        InventoryConfig {
            enable_refresh: default_true(),
            tool_ttl: default_tool_ttl(),
            refresh_interval: default_refresh_interval(),
            refresh_on_error: default_true(),
        }
    }
}

impl Default for McpConfig {
    fn default() -> (r: Self)
        ensures
            r.servers@.len() == 0,
            r.pool.max_connections == 100,
            r.pool.idle_timeout == 300,
            r.proxy is None,
            r.warmup@.len() == 0,
            r.inventory.enable_refresh,
            r.inventory.tool_ttl == 300,
            r.inventory.refresh_interval == 60,
            r.inventory.refresh_on_error,
            r.policy.default == PolicyDecisionConfig::Allow,
            r.policy.servers@.len() == 0,
            r.policy.tools@.len() == 0,
    {
        McpConfig {
            servers: Vec::new(),
            pool: McpPoolConfig::default(),
            proxy: None,
            warmup: Vec::new(),
            inventory: InventoryConfig::default(),
            policy: PolicyConfig::default(),
        }
    }
}

// ---------------------------------------------------------------------------
// Written form of a policy decision
// ---------------------------------------------------------------------------

/// What a [`PolicyDecisionConfig`] decides.
pub enum DecisionView {
    Allow,
    Deny,
    DenyWithReason(Seq<char>),
}

/// What a [`PolicyWire`] says.
pub enum WireView {
    Word(Seq<char>),
    Entry(Seq<char>, Seq<char>),
}

impl View for PolicyDecisionConfig {
    type V = DecisionView;

    open spec fn view(&self) -> DecisionView {
        match self {
            PolicyDecisionConfig::Allow => DecisionView::Allow,
            PolicyDecisionConfig::Deny => DecisionView::Deny,
            PolicyDecisionConfig::DenyWithReason(reason) => DecisionView::DenyWithReason(reason@),
        }
    }
}

impl View for PolicyWire {
    type V = WireView;

    open spec fn view(&self) -> WireView {
        match self {
            PolicyWire::Word(w) => WireView::Word(w@),
            PolicyWire::Entry { key, reason } => WireView::Entry(key@, reason@),
        }
    }
}

/// How a decision is written down.
pub open spec fn decision_wire(d: DecisionView) -> WireView {
    match d {
        DecisionView::Allow => WireView::Word("allow"@),
        DecisionView::Deny => WireView::Word("deny"@),
        DecisionView::DenyWithReason(reason) => WireView::Entry("deny_with_reason"@, reason),
    }
}

/// The decision that a written form stands for, if any.
pub open spec fn wire_decision(w: WireView) -> Option<DecisionView> {
    match w {
        WireView::Word(word) => if word == "allow"@ {
            Some(DecisionView::Allow)
        } else if word == "deny"@ {
            Some(DecisionView::Deny)
        } else {
            None
        },
        WireView::Entry(key, reason) => if key == "deny_with_reason"@ {
            Some(DecisionView::DenyWithReason(reason))
        } else {
            None
        },
    }
}

/// A decision that is written down and read back is the same decision.
pub proof fn law_decision_survives_the_wire(d: DecisionView)
    ensures
        wire_decision(decision_wire(d)) == Some(d),
{
    reveal_strlit("allow");
    reveal_strlit("deny");
    assert("allow"@.len() == 5);
    assert("deny"@.len() == 4);
}

impl PolicyDecisionConfig {
    /// The written form of this decision.
    pub fn to_wire(&self) -> (w: PolicyWire)
        ensures
            w@ == decision_wire(self@),
    {
        match self {
            PolicyDecisionConfig::Allow => PolicyWire::Word("allow".to_owned()),
            PolicyDecisionConfig::Deny => PolicyWire::Word("deny".to_owned()),
            PolicyDecisionConfig::DenyWithReason(reason) => PolicyWire::Entry {
                key: "deny_with_reason".to_owned(),
                reason: reason.clone(),
            },
        }
    }

    /// The decision that a written form stands for; `None` for an unknown word
    /// or key.
    pub fn from_wire(w: &PolicyWire) -> (r: Option<PolicyDecisionConfig>)
        ensures
            match r {
                Some(d) => wire_decision(w@) == Some(d@),
                None => wire_decision(w@) is None,
            },
    {
        match w {
            PolicyWire::Word(word) => if text_eq(word.as_str(), "allow") {
                Some(PolicyDecisionConfig::Allow)
            } else if text_eq(word.as_str(), "deny") {
                Some(PolicyDecisionConfig::Deny)
            } else {
                None
            },
            PolicyWire::Entry { key, reason } => if text_eq(key.as_str(), "deny_with_reason") {
                Some(PolicyDecisionConfig::DenyWithReason(reason.clone()))
            } else {
                None
            },
        }
    }
}

// ---------------------------------------------------------------------------
// Built-in tool types
// ---------------------------------------------------------------------------

impl BuiltinToolType {
    /// The response format that goes with a built-in type.
    pub open spec fn format(self) -> ResponseFormatConfig {
        match self {
            BuiltinToolType::WebSearchPreview => ResponseFormatConfig::WebSearchCall,
            BuiltinToolType::CodeInterpreter => ResponseFormatConfig::CodeInterpreterCall,
            BuiltinToolType::FileSearch => ResponseFormatConfig::FileSearchCall,
        }
    }

    /// The name under which a built-in type is requested.
    pub open spec fn name(self) -> Seq<char> {
        match self {
            BuiltinToolType::WebSearchPreview => "web_search_preview"@,
            BuiltinToolType::CodeInterpreter => "code_interpreter"@,
            BuiltinToolType::FileSearch => "file_search"@,
        }
    }

    /// The response format that goes with this built-in type.
    pub fn response_format(self) -> (r: ResponseFormatConfig)
        ensures
            r == self.format(),
    {
        match self {
            BuiltinToolType::WebSearchPreview => ResponseFormatConfig::WebSearchCall,
            BuiltinToolType::CodeInterpreter => ResponseFormatConfig::CodeInterpreterCall,
            BuiltinToolType::FileSearch => ResponseFormatConfig::FileSearchCall,
        }
    }

    /// The name under which this built-in type is requested.
    pub fn to_string(&self) -> (r: String)
        ensures
            r@ == self.name(),
    {
        match self {
            BuiltinToolType::WebSearchPreview => "web_search_preview".to_owned(),
            BuiltinToolType::CodeInterpreter => "code_interpreter".to_owned(),
            BuiltinToolType::FileSearch => "file_search".to_owned(),
        }
    }
}

// ---------------------------------------------------------------------------
// Validation
// ---------------------------------------------------------------------------

/// What is wrong with a server on its own, if anything.
pub open spec fn server_error(server: McpServerConfig) -> Option<ConfigValidationError> {
    match (server.builtin_type, server.builtin_tool_name) {
        (Some(_), None) => Some(
            ConfigValidationError::MissingBuiltinToolName { server: server.name },
        ),
        (None, Some(tool_name)) => Some(
            ConfigValidationError::MissingBuiltinType { server: server.name, tool_name },
        ),
        _ => None,
    }
}

/// The first server with the given built-in type; the number of servers where
/// there is none.
pub open spec fn type_owner(servers: Seq<McpServerConfig>, t: BuiltinToolType, from: int) -> int
    decreases servers.len() - from,
{
    if from >= servers.len() {
        servers.len() as int
    } else if servers[from].builtin_type == Some(t) {
        from
    } else {
        type_owner(servers, t, from + 1)
    }
}

/// What is wrong with the server at `i`, seen against those before it.
pub open spec fn error_at(servers: Seq<McpServerConfig>, i: int) -> Option<ConfigValidationError> {
    match server_error(servers[i]) {
        Some(e) => Some(e),
        None => match servers[i].builtin_type {
            Some(t) => {
                let first = type_owner(servers, t, 0);
                if first < i {
                    Some(
                        ConfigValidationError::DuplicateBuiltinType {
                            builtin_type: t,
                            first_server: servers[first].name,
                            second_server: servers[i].name,
                        },
                    )
                } else {
                    None
                }
            },
            None => None,
        },
    }
}

/// The first thing that is wrong with the servers from `from` on.
pub open spec fn first_error(servers: Seq<McpServerConfig>, from: int) -> Result<
    (),
    ConfigValidationError,
>
    decreases servers.len() - from,
{
    if from >= servers.len() {
        Ok(())
    } else {
        match error_at(servers, from) {
            Some(e) => Err(e),
            None => first_error(servers, from + 1),
        }
    }
}

proof fn lemma_type_owner(servers: Seq<McpServerConfig>, t: BuiltinToolType, from: int)
    requires
        0 <= from <= servers.len(),
    ensures
        from <= type_owner(servers, t, from) <= servers.len(),
        type_owner(servers, t, from) < servers.len() ==> servers[type_owner(
            servers,
            t,
            from,
        )].builtin_type == Some(t),
        forall|j: int|
            from <= j < type_owner(servers, t, from) ==> (#[trigger] servers[j]).builtin_type
                != Some(t),
    decreases servers.len() - from,
{
    if from < servers.len() && servers[from].builtin_type != Some(t) {
        lemma_type_owner(servers, t, from + 1);
    }
}

proof fn lemma_first_error_ok(servers: Seq<McpServerConfig>, from: int)
    requires
        0 <= from <= servers.len(),
    ensures
        first_error(servers, from) is Ok <==> forall|i: int|
            from <= i < servers.len() ==> #[trigger] error_at(servers, i) is None,
    decreases servers.len() - from,
{
    if from < servers.len() {
        lemma_first_error_ok(servers, from + 1);
        if first_error(servers, from) is Ok {
            assert forall|i: int| from <= i < servers.len() implies #[trigger] error_at(servers, i)
                is None by {
                if i > from {
                    assert(first_error(servers, from + 1) is Ok);
                }
            }
        }
        if forall|i: int| from <= i < servers.len() ==> #[trigger] error_at(servers, i) is None {
            assert(error_at(servers, from) is None);
        }
    }
}

/// A configuration is valid exactly when every server names a built-in type
/// together with its tool or names neither, and no built-in type belongs to
/// two servers.
pub proof fn law_validation(servers: Seq<McpServerConfig>)
    ensures
        first_error(servers, 0) is Ok <==> {
            &&& forall|i: int|
                0 <= i < servers.len() ==> ((#[trigger] servers[i]).builtin_type is Some
                    <==> servers[i].builtin_tool_name is Some)
            &&& forall|i: int, j: int|
                0 <= i < j < servers.len() && (#[trigger] servers[i]).builtin_type is Some
                    ==> servers[i].builtin_type != (#[trigger] servers[j]).builtin_type
        },
{
    lemma_first_error_ok(servers, 0);
    if first_error(servers, 0) is Ok {
        assert forall|i: int| 0 <= i < servers.len() implies ((
        #[trigger] servers[i]).builtin_type is Some <==> servers[i].builtin_tool_name is Some) by {
            assert(error_at(servers, i) is None);
        }
        assert forall|i: int, j: int|
            0 <= i < j < servers.len() && (#[trigger] servers[i]).builtin_type
                is Some implies servers[i].builtin_type != (#[trigger] servers[j]).builtin_type by {
            if servers[i].builtin_type == servers[j].builtin_type {
                let t = servers[i].builtin_type->0;
                lemma_type_owner(servers, t, 0);
                assert(error_at(servers, j) is None);
            }
        }
    } else {
        let i = choose|i: int| 0 <= i < servers.len() && #[trigger] error_at(servers, i) is Some;
        if server_error(servers[i]) is None {
            let t = servers[i].builtin_type->0;
            lemma_type_owner(servers, t, 0);
            let first = type_owner(servers, t, 0);
            assert(servers[first].builtin_type == Some(t));
        }
    }
}

impl McpServerConfig {
    /// Checks that a built-in type and its tool are named together.
    pub fn validate(&self) -> (r: Result<(), ConfigValidationError>)
        ensures
            r == match server_error(*self) {
                Some(e) => Err::<(), ConfigValidationError>(e),
                None => Ok(()),
            },
    {
        match (&self.builtin_type, &self.builtin_tool_name) {
            (Some(_), None) => Err(
                ConfigValidationError::MissingBuiltinToolName { server: self.name.clone() },
            ),
            (None, Some(tool_name)) => Err(
                ConfigValidationError::MissingBuiltinType {
                    server: self.name.clone(),
                    tool_name: tool_name.clone(),
                },
            ),
            _ => Ok(()),
        }
    }
}

/// The message of a [`ConfigValidationError`].
pub open spec fn error_text(e: ConfigValidationError) -> Seq<char> {
    match e {
        ConfigValidationError::MissingBuiltinToolName { server } => "server '"@ + server@
            + "': builtin_type is set but builtin_tool_name is missing"@,
        ConfigValidationError::MissingBuiltinType { server, tool_name } => "server '"@ + server@
            + "': builtin_tool_name '"@ + tool_name@ + "' is set but builtin_type is missing"@,
        ConfigValidationError::DuplicateBuiltinType {
            builtin_type,
            first_server,
            second_server,
        } => "duplicate builtin_type '"@ + builtin_type.name() + "': configured on both '"@
            + first_server@ + "' and '"@ + second_server@ + "'"@,
    }
}

impl ConfigValidationError {
    /// The message for people.
    pub fn to_string(&self) -> (r: String)
        ensures
            r@ == error_text(*self),
    {
        match self {
            ConfigValidationError::MissingBuiltinToolName { server } => {
                let mut r: String = "server '".to_owned();
                r.append(server.as_str());
                r.append("': builtin_type is set but builtin_tool_name is missing");
                r
            },
            ConfigValidationError::MissingBuiltinType { server, tool_name } => {
                let mut r: String = "server '".to_owned();
                r.append(server.as_str());
                r.append("': builtin_tool_name '");
                r.append(tool_name.as_str());
                r.append("' is set but builtin_type is missing");
                r
            },
            ConfigValidationError::DuplicateBuiltinType {
                builtin_type,
                first_server,
                second_server,
            } => {
                let mut r: String = "duplicate builtin_type '".to_owned();
                r.append(builtin_type.to_string().as_str());
                r.append("': configured on both '");
                r.append(first_server.as_str());
                r.append("' and '");
                r.append(second_server.as_str());
                r.append("'");
                r
            },
        }
    }
}

impl McpConfig {
    /// Configuration from the environment: none is defined.
    pub fn from_env() -> (r: Option<McpConfig>)
        ensures
            r is None,
    {
        None
    }

    /// This configuration, with the proxy of the environment where it names
    /// none itself.
    pub fn with_env_proxy(self, env_proxy: Option<McpProxyConfig>) -> (r: McpConfig)
        ensures
            r == (McpConfig {
                proxy: if self.proxy is Some {
                    self.proxy
                } else {
                    env_proxy
                },
                ..self
            }),
    {
        let mut r = self;
        if r.proxy.is_none() {
            r.proxy = env_proxy;
        }
        r
    }

    /// Checks every server on its own, and that no built-in type belongs to two
    /// of them. The error is the first one in the order of the servers.
    pub fn validate(&self) -> (r: Result<(), ConfigValidationError>)
        ensures
            r == first_error(self.servers@, 0),
    {
        let mut i: usize = 0;
        while i < self.servers.len()
            invariant
                i <= self.servers@.len(),
                first_error(self.servers@, 0) == first_error(self.servers@, i as int),
            decreases self.servers@.len() - i,
        {
            let server = &self.servers[i];
            match server.validate() {
                Err(e) => {
                    return Err(e);
                },
                Ok(()) => {},
            }
            if let Some(builtin_type) = server.builtin_type {
                let first = self.first_with_type(builtin_type);
                if first < i {
                    return Err(
                        ConfigValidationError::DuplicateBuiltinType {
                            builtin_type,
                            first_server: self.servers[first].name.clone(),
                            second_server: server.name.clone(),
                        },
                    );
                }
            }
            i += 1;
        }
        Ok(())
    }

    /// The first server with the given built-in type; the number of servers
    /// where there is none.
    fn first_with_type(&self, t: BuiltinToolType) -> (at: usize)
        ensures
            at == type_owner(self.servers@, t, 0),
            at <= self.servers@.len(),
    {
        let mut at: usize = 0;
        while at < self.servers.len() && self.servers[at].builtin_type != Some(t)
            invariant
                at <= self.servers@.len(),
                type_owner(self.servers@, t, 0) == type_owner(self.servers@, t, at as int),
            ensures
                at <= self.servers@.len(),
                at == type_owner(self.servers@, t, 0),
            decreases self.servers@.len() - at,
        {
            at += 1;
        }
        at
    }
}

// ---------------------------------------------------------------------------
// Proxy
// ---------------------------------------------------------------------------

/// Values of the proxy variables of the environment.
pub struct ProxyVars {
    pub mcp_http_proxy: Option<String>,
    pub http_proxy: Option<String>,
    pub mcp_https_proxy: Option<String>,
    pub https_proxy: Option<String>,
    pub mcp_no_proxy: Option<String>,
    pub no_proxy: Option<String>,
}

/// The first of two optional values that is there.
pub open spec fn first_set(a: Option<String>, b: Option<String>) -> Option<String> {
    if a is Some {
        a
    } else {
        b
    }
}

/// The proxy that the variables name, where they name one.
pub open spec fn proxy_from(vars: ProxyVars) -> Option<McpProxyConfig> {
    let http = first_set(vars.mcp_http_proxy, vars.http_proxy);
    let https = first_set(vars.mcp_https_proxy, vars.https_proxy);
    if http is Some || https is Some {
        Some(
            McpProxyConfig {
                http,
                https,
                no_proxy: first_set(vars.mcp_no_proxy, vars.no_proxy),
                username: None,
                password: None,
            },
        )
    } else {
        None
    }
}

impl McpProxyConfig {
    /// The proxy that the environment asks for: the variables with the prefix
    /// `MCP_` come before the general ones, and without an HTTP or HTTPS proxy
    /// there is none.
    pub fn from_vars(vars: ProxyVars) -> (r: Option<McpProxyConfig>)
        ensures
            r == proxy_from(vars),
            r == ({
                let http = first_set(vars.mcp_http_proxy, vars.http_proxy);
                let https = first_set(vars.mcp_https_proxy, vars.https_proxy);
                if http is Some || https is Some {
                    Some(
                        McpProxyConfig {
                            http,
                            https,
                            no_proxy: first_set(vars.mcp_no_proxy, vars.no_proxy),
                            username: None,
                            password: None,
                        },
                    )
                } else {
                    None
                }
            }),
    {
        let http = if vars.mcp_http_proxy.is_some() {
            vars.mcp_http_proxy
        } else {
            vars.http_proxy
        };
        let https = if vars.mcp_https_proxy.is_some() {
            vars.mcp_https_proxy
        } else {
            vars.https_proxy
        };
        let no_proxy = if vars.mcp_no_proxy.is_some() {
            vars.mcp_no_proxy
        } else {
            vars.no_proxy
        };
        if http.is_some() || https.is_some() {
            Some(McpProxyConfig { http, https, no_proxy, username: None, password: None })
        } else {
            None
        }
    }
}

// ---------------------------------------------------------------------------
// Redaction
// ---------------------------------------------------------------------------

/// Names and values of a list of variables or headers.
pub open spec fn pair_views(list: Seq<(String, String)>) -> Seq<(Seq<char>, Seq<char>)> {
    list.map_values(|p: (String, String)| (p.0@, p.1@))
}

/// What a [`RedactedTransport`] shows.
pub enum RedactedView {
    Stdio(Seq<char>, Seq<Seq<char>>, Seq<(Seq<char>, Seq<char>)>),
    Sse(Seq<char>, Option<Seq<char>>, Seq<char>),
    Streamable(Seq<char>, Option<Seq<char>>, Seq<char>),
}

impl View for RedactedTransport {
    type V = RedactedView;

    open spec fn view(&self) -> RedactedView {
        match self {
            RedactedTransport::Stdio { command, args, envs } => RedactedView::Stdio(
                command@,
                views(args@),
                pair_views(envs@),
            ),
            RedactedTransport::Sse { url, token, headers } => RedactedView::Sse(
                url@,
                opt_view(*token),
                headers@,
            ),
            RedactedTransport::Streamable { url, token, headers } => RedactedView::Streamable(
                url@,
                opt_view(*token),
                headers@,
            ),
        }
    }
}

/// The address of a transport over HTTP.
pub open spec fn transport_url(transport: McpTransport) -> Option<Seq<char>> {
    match transport {
        McpTransport::Sse { url, .. } => Some(url@),
        McpTransport::Streamable { url, .. } => Some(url@),
        McpTransport::Stdio { .. } => None,
    }
}

/// The credential of a transport over HTTP.
pub open spec fn transport_token(transport: McpTransport) -> Option<Seq<char>> {
    match transport {
        McpTransport::Sse { token, .. } => opt_view(token),
        McpTransport::Streamable { token, .. } => opt_view(token),
        McpTransport::Stdio { .. } => None,
    }
}

/// The headers of a transport over HTTP.
pub open spec fn transport_headers(transport: McpTransport) -> Seq<Pair> {
    match transport {
        McpTransport::Sse { headers, .. } => pair_list(headers@),
        McpTransport::Streamable { headers, .. } => pair_list(headers@),
        McpTransport::Stdio { .. } => Seq::empty(),
    }
}

/// What is shown of a token: only that there is one.
pub open spec fn masked(token: Option<String>) -> Option<Seq<char>> {
    if token is Some {
        Some("****"@)
    } else {
        None
    }
}

/// What is shown of the headers: only their number.
pub open spec fn header_summary(count: nat) -> Seq<char> {
    decimal(count) + " headers"@
}

/// What may be shown of a transport.
pub open spec fn redaction(t: McpTransport) -> RedactedView {
    match t {
        McpTransport::Stdio { command, args, envs } => RedactedView::Stdio(
            command@,
            views(args@),
            pair_views(envs@),
        ),
        McpTransport::Sse { url, token, headers } => RedactedView::Sse(
            url@,
            masked(token),
            header_summary(headers@.len()),
        ),
        McpTransport::Streamable { url, token, headers } => RedactedView::Streamable(
            url@,
            masked(token),
            header_summary(headers@.len()),
        ),
    }
}

/// What is shown of an HTTP transport depends neither on what the token is, only
/// on whether there is one, nor on what the headers hold.
pub proof fn law_redaction_hides_secrets(
    url: String,
    token: Option<String>,
    other_token: Option<String>,
    headers: Vec<(String, String)>,
    other_headers: Vec<(String, String)>,
)
    requires
        token is Some == other_token is Some,
        headers@.len() == other_headers@.len(),
    ensures
        redaction(McpTransport::Sse { url, token, headers }) == redaction(
            McpTransport::Sse { url, token: other_token, headers: other_headers },
        ),
        redaction(McpTransport::Streamable { url, token, headers }) == redaction(
            McpTransport::Streamable { url, token: other_token, headers: other_headers },
        ),
{
}

/// A copy of a list of pairs.
pub fn clone_pairs(list: &Vec<(String, String)>) -> (copy: Vec<(String, String)>)
    ensures
        copy@ == list@,
{
    let mut copy: Vec<(String, String)> = Vec::new();
    for i in 0..list.len()
        invariant
            copy@ == list@.take(i as int),
    {
        copy.push((list[i].0.clone(), list[i].1.clone()));
        assert(list@.take(i + 1) == list@.take(i as int).push(list@[i as int]));
    }
    assert(list@.take(list@.len() as int) == list@);
    copy
}

fn mask(token: &Option<String>) -> (r: Option<String>)
    ensures
        opt_view(r) == masked(*token),
{
    match token {
        Some(_) => Some("****".to_owned()),
        None => None,
    }
}

fn summarize(headers: &Vec<(String, String)>) -> (r: String)
    ensures
        r@ == header_summary(headers@.len()),
{
    let mut r = decimal_text(headers.len() as u64);
    r.append(" headers");
    r
}

impl McpTransport {
    /// This transport without its token and headers.
    pub fn redacted(&self) -> (r: RedactedTransport)
        ensures
            r@ == redaction(*self),
    {
        match self {
            McpTransport::Stdio { command, args, envs } => RedactedTransport::Stdio {
                command: command.clone(),
                args: clone_list(args),
                envs: clone_pairs(envs),
            },
            McpTransport::Sse { url, token, headers } => RedactedTransport::Sse {
                url: url.clone(),
                token: mask(token),
                headers: summarize(headers),
            },
            McpTransport::Streamable { url, token, headers } => RedactedTransport::Streamable {
                url: url.clone(),
                token: mask(token),
                headers: summarize(headers),
            },
        }
    }
}

} // verus!

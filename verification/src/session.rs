//! The tools of one request, under the names by which the model calls them.

use vstd::prelude::*;

use crate::approval::{ApprovalMode, TenantContext};
use crate::clients::no_clients;
use crate::context::McpRequestContext;
use crate::events::ITEM_MCP_LIST_TOOLS;
use crate::execution::{
    failed_outcome, make_error_object, records, resolved_outcome, CallOutcome, ToolExecutionInput,
    ToolExecutionOutput,
};
use crate::inventory::{
    empty_inventory, of_servers, tool_get, tool_views, EntryView, NameView, QualifiedToolName, ResponseFormat,
    ToolEntry,
};
use crate::json::{json_views, Json, JsonView};
use crate::orchestrator::{is_builtin_server, is_internal_server, McpOrchestrator};
use crate::text::{
    clone_list, decimal, decimal_text, lemma_decimal_injective, list_contains, sanitize_tool_token,
    sanitized, text_eq, trim, trimmed, views,
};
use crate::tool_loop::tool_label;
use crate::wire::print;

verus! {

broadcast use vstd::string::group_string_axioms;

/// The label of a server for which the client gave none.
pub const DEFAULT_SERVER_LABEL: &'static str = "mcp";

/// The server of a tool that is not known.
pub const UNKNOWN_SERVER_KEY: &'static str = "unknown";

// ---------------------------------------------------------------------------
// Types
// ---------------------------------------------------------------------------

/// A server that a request uses: as the client knows it, and as the gateway
/// knows it.
#[derive(Debug, PartialEq, Eq)]
pub struct McpServerBinding {
    pub label: String,
    pub server_key: String,
    /// The tools that are exposed; all of them where there is no list.
    pub allowed_tools: Option<Vec<String>>,
}

/// What an [`McpServerBinding`] holds.
pub struct BindingView {
    pub label: Seq<char>,
    pub server_key: Seq<char>,
    pub allowed_tools: Option<Seq<Seq<char>>>,
}

impl View for McpServerBinding {
    type V = BindingView;

    open spec fn view(&self) -> BindingView {
        BindingView {
            label: self.label@,
            server_key: self.server_key@,
            allowed_tools: match self.allowed_tools {
                Some(list) => Some(views(list@)),
                None => None,
            },
        }
    }
}

/// The views of a list of bindings.
pub open spec fn binding_views(list: Seq<McpServerBinding>) -> Seq<BindingView> {
    Seq::new(list.len(), |i: int| list[i]@)
}

impl Clone for McpServerBinding {
    fn clone(&self) -> (copy: Self)
        ensures
            copy@ == self@,
    {
        McpServerBinding {
            label: self.label.clone(),
            server_key: self.server_key.clone(),
            allowed_tools: match &self.allowed_tools {
                Some(list) => Some(clone_list(list)),
                None => None,
            },
        }
    }
}

/// A tool under the name by which the model calls it.
#[derive(Debug, PartialEq, Eq)]
pub struct ExposedTool {
    pub exposed_name: String,
    pub server_key: String,
    pub server_label: String,
    pub resolved_tool_name: String,
    pub response_format: ResponseFormat,
}

/// What an [`ExposedTool`] holds.
pub struct ExposedView {
    pub exposed_name: Seq<char>,
    pub server_key: Seq<char>,
    pub server_label: Seq<char>,
    pub resolved_tool_name: Seq<char>,
    pub response_format: ResponseFormat,
}

impl View for ExposedTool {
    type V = ExposedView;

    open spec fn view(&self) -> ExposedView {
        ExposedView {
            exposed_name: self.exposed_name@,
            server_key: self.server_key@,
            server_label: self.server_label@,
            resolved_tool_name: self.resolved_tool_name@,
            response_format: self.response_format,
        }
    }
}

/// The views of a list of exposed tools.
pub open spec fn exposed_views(list: Seq<ExposedTool>) -> Seq<ExposedView> {
    Seq::new(list.len(), |i: int| list[i]@)
}

// ---------------------------------------------------------------------------
// Which tools a request sees
// ---------------------------------------------------------------------------

/// The list of allowed tools of a server: that of the last binding that has
/// one.
pub open spec fn allowlist(servers: Seq<BindingView>, key: Seq<char>) -> Option<Seq<Seq<char>>>
    decreases servers.len(),
{
    if servers.len() == 0 {
        None
    } else if servers.last().server_key == key && servers.last().allowed_tools is Some {
        servers.last().allowed_tools
    } else {
        allowlist(servers.drop_last(), key)
    }
}

/// Whether a list names a tool. Names are trimmed, and empty ones do not count.
pub open spec fn list_allows(list: Seq<Seq<char>>, tool: Seq<char>) -> bool {
    exists|i: int|
        0 <= i < list.len() && trimmed(#[trigger] list[i]) == tool && trimmed(list[i]).len() > 0
}

/// Whether a tool may be exposed.
pub open spec fn is_allowed(servers: Seq<BindingView>, name: NameView) -> bool {
    match allowlist(servers, name.0) {
        Some(list) => list_allows(list, name.1),
        None => true,
    }
}

/// The tools that may be exposed.
pub open spec fn allowed_only(tools: Seq<EntryView>, servers: Seq<BindingView>) -> Seq<EntryView>
    decreases tools.len(),
{
    if tools.len() == 0 {
        tools
    } else if is_allowed(servers, tools.last().name) {
        allowed_only(tools.drop_last(), servers).push(tools.last())
    } else {
        allowed_only(tools.drop_last(), servers)
    }
}

/// The servers of a list of bindings.
pub open spec fn binding_keys(servers: Seq<BindingView>) -> Seq<Seq<char>> {
    servers.map_values(|b: BindingView| b.server_key)
}

/// The tools that a request sees: those of its servers that may be exposed.
pub open spec fn session_tools(tools: Seq<EntryView>, servers: Seq<BindingView>) -> Seq<EntryView> {
    allowed_only(of_servers(tools, binding_keys(servers)), servers)
}

/// A request sees a tool exactly when the tool is known, belongs to one of its
/// servers, and is on the list of allowed tools of that server, if there is
/// one. A list of one server says nothing of the tools of another.
pub proof fn law_session_tools(tools: Seq<EntryView>, servers: Seq<BindingView>, entry: EntryView)
    ensures
        session_tools(tools, servers).contains(entry) <==> tools.contains(entry) && binding_keys(
            servers,
        ).contains(entry.name.0) && is_allowed(servers, entry.name),
{
    lemma_of_servers_contains(tools, binding_keys(servers), entry);
    lemma_allowed_only_contains(of_servers(tools, binding_keys(servers)), servers, entry);
}

proof fn lemma_push_contains<A>(s: Seq<A>, a: A, x: A)
    ensures
        s.push(a).contains(x) <==> s.contains(x) || x == a,
{
    if s.contains(x) {
        let k = choose|k: int| 0 <= k < s.len() && s[k] == x;
        assert(s.push(a)[k] == x);
    }
    if x == a {
        assert(s.push(a)[s.len() as int] == x);
    }
}

proof fn lemma_of_servers_contains(
    tools: Seq<EntryView>,
    keys: Seq<Seq<char>>,
    entry: EntryView,
)
    ensures
        of_servers(tools, keys).contains(entry) <==> tools.contains(entry) && keys.contains(
            entry.name.0,
        ),
    decreases tools.len(),
{
    if tools.len() > 0 {
        let rest = tools.drop_last();
        lemma_of_servers_contains(rest, keys, entry);
        assert(tools =~= rest.push(tools.last()));
        lemma_push_contains(rest, tools.last(), entry);
        lemma_push_contains(of_servers(rest, keys), tools.last(), entry);
    }
}

proof fn lemma_allowed_only_contains(
    tools: Seq<EntryView>,
    servers: Seq<BindingView>,
    entry: EntryView,
)
    ensures
        allowed_only(tools, servers).contains(entry) <==> tools.contains(entry) && is_allowed(
            servers,
            entry.name,
        ),
    decreases tools.len(),
{
    if tools.len() > 0 {
        let rest = tools.drop_last();
        lemma_allowed_only_contains(rest, servers, entry);
        assert(tools =~= rest.push(tools.last()));
        lemma_push_contains(rest, tools.last(), entry);
        lemma_push_contains(allowed_only(rest, servers), tools.last(), entry);
    }
}

/// Whether a list names a tool.
fn allows(list: &Vec<String>, tool: &str) -> (r: bool)
    ensures
        r == list_allows(views(list@), tool@),
{
    for i in 0..list.len()
        invariant
            forall|j: int|
                0 <= j < i ==> !(trimmed(#[trigger] views(list@)[j]) == tool@ && trimmed(
                    views(list@)[j],
                ).len() > 0),
    {
        let name = trim(list[i].as_str());
        assert(views(list@)[i as int] == list@[i as int]@);
        if !name.is_empty() && text_eq(name, tool) {
            return true;
        }
    }
    false
}

/// Whether a tool may be exposed.
fn may_expose(servers: &Vec<McpServerBinding>, entry: &ToolEntry) -> (r: bool)
    ensures
        r == is_allowed(binding_views(servers@), entry@.name),
{
    let ghost all = binding_views(servers@);
    let mut n: usize = servers.len();
    assert(all.take(n as int) =~= all);
    while n > 0
        invariant
            n <= servers@.len(),
            all == binding_views(servers@),
            allowlist(all, entry@.name.0) == allowlist(all.take(n as int), entry@.name.0),
        decreases n,
    {
        let binding = &servers[n - 1];
        proof {
            assert(all.take(n as int).last() == binding@);
            assert(all.take(n as int).drop_last() =~= all.take(n - 1));
        }
        if text_eq(binding.server_key.as_str(), entry.server_key()) {
            if let Some(list) = &binding.allowed_tools {
                return allows(list, entry.tool_name());
            }
        }
        n -= 1;
    }
    true
}

// ---------------------------------------------------------------------------
// Exposed names
// ---------------------------------------------------------------------------

/// The label of a server: that of its last binding, or its key.
pub open spec fn label_of(servers: Seq<BindingView>, key: Seq<char>) -> Seq<char>
    decreases servers.len(),
{
    if servers.len() == 0 {
        key
    } else if servers.last().server_key == key {
        servers.last().label
    } else {
        label_of(servers.drop_last(), key)
    }
}

/// How many tools have the given name, on whatever server.
pub open spec fn name_count(tools: Seq<EntryView>, tool: Seq<char>) -> nat
    decreases tools.len(),
{
    if tools.len() == 0 {
        0
    } else {
        name_count(tools.drop_last(), tool) + (if tools.last().name.1 == tool {
            1nat
        } else {
            0
        })
    }
}

/// The name that a tool would like to have: its own where no other tool has it,
/// else one that also tells the server.
pub open spec fn base_name(
    tools: Seq<EntryView>,
    servers: Seq<BindingView>,
    name: NameView,
) -> Seq<char> {
    if name_count(tools, name.1) <= 1 {
        name.1
    } else {
        "mcp_"@ + sanitized(label_of(servers, name.0)) + "_"@ + sanitized(name.1)
    }
}

/// The name at place `k` in the row of candidates for a base name.
pub open spec fn candidate(base: Seq<char>, k: nat) -> Seq<char> {
    if k == 0 {
        base
    } else {
        base + "_"@ + decimal(k)
    }
}

/// The first candidate, from place `k` on, that is not in use.
pub open spec fn first_free(base: Seq<char>, used: Seq<Seq<char>>, k: nat) -> nat
    decreases used.len() + 1 - k,
{
    if k <= used.len() && used.contains(candidate(base, k)) {
        first_free(base, used, k + 1)
    } else {
        k
    }
}

/// The name that a tool gets: the first candidate that no earlier tool has.
pub open spec fn free_name(base: Seq<char>, used: Seq<Seq<char>>) -> Seq<char> {
    candidate(base, first_free(base, used, 0))
}

/// The exposed names of the first `n` tools.
pub open spec fn exposed_names(tools: Seq<EntryView>, servers: Seq<BindingView>, n: int) -> Seq<
    Seq<char>,
>
    decreases n,
{
    if n <= 0 {
        Seq::empty()
    } else {
        let earlier = exposed_names(tools, servers, n - 1);
        earlier.push(free_name(base_name(tools, servers, tools[n - 1].name), earlier))
    }
}

/// What is exposed of the tool at `i`.
pub open spec fn exposed_tool(tools: Seq<EntryView>, servers: Seq<BindingView>, i: int) -> ExposedView {
    ExposedView {
        exposed_name: exposed_names(tools, servers, tools.len() as int)[i],
        server_key: tools[i].name.0,
        server_label: label_of(servers, tools[i].name.0),
        resolved_tool_name: tools[i].name.1,
        response_format: tools[i].response_format,
    }
}

/// What is exposed of all tools.
pub open spec fn exposed_tools(tools: Seq<EntryView>, servers: Seq<BindingView>) -> Seq<ExposedView> {
    Seq::new(tools.len(), |i: int| exposed_tool(tools, servers, i))
}

proof fn lemma_candidate_injective(base: Seq<char>, j: nat, k: nat)
    requires
        candidate(base, j) == candidate(base, k),
    ensures
        j == k,
{
    let n = base.len() as int;
    reveal_strlit("_");
    if j > 0 && k > 0 {
        let x = candidate(base, j);
        let y = candidate(base, k);
        assert(x.skip(n + 1) =~= decimal(j));
        assert(y.skip(n + 1) =~= decimal(k));
        lemma_decimal_injective(j, k);
    } else if j > 0 {
        assert(candidate(base, j).len() > base.len());
    } else if k > 0 {
        assert(candidate(base, k).len() > base.len());
    }
}

/// Among one more candidates than names in use there is one that is not in use.
proof fn lemma_some_candidate_free(base: Seq<char>, used: Seq<Seq<char>>)
    ensures
        exists|k: nat| k <= used.len() && !used.contains(#[trigger] candidate(base, k)),
{
    if forall|k: nat| k <= used.len() ==> used.contains(#[trigger] candidate(base, k)) {
        let row = Seq::new(used.len() + 1, |k: int| candidate(base, k as nat));
        assert(row.no_duplicates()) by {
            assert forall|i: int, j: int|
                0 <= i < row.len() && 0 <= j < row.len() && i != j implies row[i] != row[j] by {
                if row[i] == row[j] {
                    lemma_candidate_injective(base, i as nat, j as nat);
                }
            }
        }
        row.unique_seq_to_set();
        vstd::seq_lib::seq_to_set_is_finite(used);
        used.lemma_cardinality_of_set();
        assert forall|x: Seq<char>| row.to_set().contains(x) implies used.to_set().contains(x) by {
            let i = choose|i: int| 0 <= i < row.len() && row[i] == x;
            assert(used.contains(candidate(base, i as nat)));
        }
        vstd::set_lib::lemma_len_subset(row.to_set(), used.to_set());
    }
}

proof fn lemma_first_free(base: Seq<char>, used: Seq<Seq<char>>, k: nat)
    requires
        k <= used.len() + 1,
        forall|j: nat| j < k ==> used.contains(#[trigger] candidate(base, j)),
    ensures
        first_free(base, used, k) <= used.len(),
        !used.contains(candidate(base, first_free(base, used, k))),
        k <= used.len(),
    decreases used.len() + 1 - k,
{
    lemma_some_candidate_free(base, used);
    let free = choose|f: nat| f <= used.len() && !used.contains(#[trigger] candidate(base, f));
    if k == used.len() + 1 {
        assert(used.contains(candidate(base, free)));
    }
    if used.contains(candidate(base, k)) {
        lemma_first_free(base, used, k + 1);
    }
}

proof fn lemma_exposed_names_len(tools: Seq<EntryView>, servers: Seq<BindingView>, n: int)
    requires
        0 <= n,
    ensures
        exposed_names(tools, servers, n).len() == n,
    decreases n,
{
    if n > 0 {
        lemma_exposed_names_len(tools, servers, n - 1);
    }
}

proof fn lemma_exposed_names_distinct(tools: Seq<EntryView>, servers: Seq<BindingView>, n: int)
    requires
        0 <= n,
    ensures
        exposed_names(tools, servers, n).no_duplicates(),
    decreases n,
{
    if n > 0 {
        lemma_exposed_names_distinct(tools, servers, n - 1);
        let earlier = exposed_names(tools, servers, n - 1);
        let base = base_name(tools, servers, tools[n - 1].name);
        lemma_first_free(base, earlier, 0);
        let all = exposed_names(tools, servers, n);
        assert forall|i: int, j: int|
            0 <= i < all.len() && 0 <= j < all.len() && i != j implies all[i] != all[j] by {
            if i < earlier.len() {
                assert(all[i] == earlier[i]);
                assert(earlier.contains(earlier[i]));
            }
            if j < earlier.len() {
                assert(all[j] == earlier[j]);
                assert(earlier.contains(earlier[j]));
            }
        }
    }
}

proof fn lemma_exposed_names_prefix(
    tools: Seq<EntryView>,
    servers: Seq<BindingView>,
    m: int,
    n: int,
)
    requires
        0 <= m <= n,
    ensures
        exposed_names(tools, servers, n).take(m) == exposed_names(tools, servers, m),
    decreases n,
{
    lemma_exposed_names_len(tools, servers, n);
    lemma_exposed_names_len(tools, servers, m);
    if m < n {
        lemma_exposed_names_prefix(tools, servers, m, n - 1);
        lemma_exposed_names_len(tools, servers, n - 1);
        assert(exposed_names(tools, servers, n).take(m) =~= exposed_names(
            tools,
            servers,
            n - 1,
        ).take(m));
    } else {
        assert(exposed_names(tools, servers, n).take(n) =~= exposed_names(tools, servers, n));
    }
}

/// Every tool has an exposed name, and no two tools share one.
pub proof fn law_exposed_names_are_unique(tools: Seq<EntryView>, servers: Seq<BindingView>)
    ensures
        exposed_names(tools, servers, tools.len() as int).len() == tools.len(),
        exposed_names(tools, servers, tools.len() as int).no_duplicates(),
{
    lemma_exposed_names_len(tools, servers, tools.len() as int);
    lemma_exposed_names_distinct(tools, servers, tools.len() as int);
}

/// A tool whose base name no earlier tool took is exposed under that name; so
/// a tool whose own name is unique keeps it unless an earlier tool took it.
pub proof fn law_unclaimed_base_name_is_kept(
    tools: Seq<EntryView>,
    servers: Seq<BindingView>,
    i: int,
)
    requires
        0 <= i < tools.len(),
        !exposed_names(tools, servers, i).contains(base_name(tools, servers, tools[i].name)),
    ensures
        exposed_names(tools, servers, tools.len() as int)[i] == base_name(
            tools,
            servers,
            tools[i].name,
        ),
{
    lemma_exposed_names_prefix(tools, servers, i + 1, tools.len() as int);
    lemma_exposed_names_len(tools, servers, i);
    lemma_exposed_names_len(tools, servers, i + 1);
    lemma_exposed_names_len(tools, servers, tools.len() as int);
    let all = exposed_names(tools, servers, tools.len() as int);
    assert(all.take(i + 1)[i] == all[i]);
}

/// The label of a server.
fn find_label(servers: &Vec<McpServerBinding>, key: &str) -> (label: String)
    ensures
        label@ == label_of(binding_views(servers@), key@),
{
    let ghost all = binding_views(servers@);
    let mut n: usize = servers.len();
    assert(all.take(n as int) =~= all);
    while n > 0
        invariant
            n <= servers@.len(),
            all == binding_views(servers@),
            label_of(all, key@) == label_of(all.take(n as int), key@),
        decreases n,
    {
        let binding = &servers[n - 1];
        proof {
            assert(all.take(n as int).last() == binding@);
            assert(all.take(n as int).drop_last() =~= all.take(n - 1));
        }
        if text_eq(binding.server_key.as_str(), key) {
            return binding.label.clone();
        }
        n -= 1;
    }
    key.to_owned()
}

/// Whether more than one tool has the given name.
fn is_shared_name(tools: &Vec<ToolEntry>, tool: &str) -> (r: bool)
    ensures
        r == (name_count(tool_views(tools@), tool@) > 1),
{
    let ghost all = tool_views(tools@);
    let mut count: usize = 0;
    for i in 0..tools.len()
        invariant
            all == tool_views(tools@),
            count == name_count(all.take(i as int), tool@),
            count <= i,
    {
        proof {
            let next = all.take(i + 1);
            assert(next.drop_last() =~= all.take(i as int));
            assert(next.last() == tools@[i as int]@);
        }
        if text_eq(tools[i].tool_name(), tool) {
            count += 1;
        }
    }
    assert(all.take(tools@.len() as int) =~= all);
    count > 1
}

/// The name at place `k` in the row of candidates for a base name.
fn make_candidate(base: &str, k: u64) -> (name: String)
    ensures
        name@ == candidate(base@, k as nat),
{
    let mut name: String = base.to_owned();
    if k > 0 {
        name.append("_");
        name.append(decimal_text(k).as_str());
    }
    name
}

/// The first candidate for a base name that is not in use.
fn find_free_name(base: &str, used: &Vec<String>) -> (name: String)
    ensures
        name@ == free_name(base@, views(used@)),
{
    let ghost names = views(used@);
    let mut k: u64 = 0;
    let mut name = make_candidate(base, 0);
    while list_contains(used, name.as_str())
        invariant
            names == views(used@),
            names.len() == used.len(),
            name@ == candidate(base@, k as nat),
            k <= names.len(),
            first_free(base@, names, 0) == first_free(base@, names, k as nat),
            forall|j: nat| j < k ==> names.contains(#[trigger] candidate(base@, j)),
        decreases names.len() + 1 - k,
    {
        proof {
            assert forall|j: nat| j < k + 1 implies names.contains(
                #[trigger] candidate(base@, j),
            ) by {
                if j < k {
                    assert(names.contains(candidate(base@, j)));
                }
            }
            lemma_first_free(base@, names, (k + 1) as nat);
        }
        k += 1;
        name = make_candidate(base, k);
    }
    name
}

/// The exposed tools of a session, one for each tool.
pub fn build_exposed_function_tools(
    tools: &Vec<ToolEntry>,
    mcp_servers: &Vec<McpServerBinding>,
) -> (exposed: Vec<ExposedTool>)
    ensures
        exposed_views(exposed@) == exposed_tools(tool_views(tools@), binding_views(mcp_servers@)),
{
    let ghost all = tool_views(tools@);
    let ghost servers = binding_views(mcp_servers@);
    let mut names: Vec<String> = Vec::new();
    let mut exposed: Vec<ExposedTool> = Vec::new();
    assert(views(names@) =~= exposed_names(all, servers, 0));
    for i in 0..tools.len()
        invariant
            all == tool_views(tools@),
            servers == binding_views(mcp_servers@),
            views(names@) == exposed_names(all, servers, i as int),
            exposed@.len() == i,
            forall|j: int|
                0 <= j < i ==> (#[trigger] exposed@[j])@ == exposed_tool(all, servers, j),
    {
        let entry = &tools[i];
        assert(all[i as int] == entry@);
        let label = find_label(mcp_servers, entry.server_key());
        let base = if is_shared_name(tools, entry.tool_name()) {
            let mut base: String = "mcp_".to_owned();
            base.append(sanitize_tool_token(label.as_str()).as_str());
            base.append("_");
            base.append(sanitize_tool_token(entry.tool_name()).as_str());
            base
        } else {
            entry.tool_name().to_owned()
        };
        let name = find_free_name(base.as_str(), &names);
        let ghost before = views(names@);
        let ghost fresh = name@;
        names.push(name.clone());
        proof {
            assert(views(names@) =~= before.push(fresh));
            lemma_exposed_names_prefix(all, servers, i + 1, all.len() as int);
            lemma_exposed_names_len(all, servers, i as int);
            lemma_exposed_names_len(all, servers, i + 1);
            lemma_exposed_names_len(all, servers, all.len() as int);
            let whole = exposed_names(all, servers, all.len() as int);
            assert(whole.take(i + 1)[i as int] == whole[i as int]);
        }
        exposed.push(
            ExposedTool {
                exposed_name: name,
                server_key: entry.server_key().to_owned(),
                server_label: label,
                resolved_tool_name: entry.tool_name().to_owned(),
                response_format: entry.response_format,
            },
        );
    }
    assert(exposed_views(exposed@) =~= exposed_tools(all, servers));
    exposed
}

// ---------------------------------------------------------------------------
// The session
// ---------------------------------------------------------------------------

/// The servers that are shown to the client: those without a built-in type.
pub open spec fn visible_servers(servers: Seq<BindingView>, orchestrator: McpOrchestrator) -> Seq<
    BindingView,
>
    decreases servers.len(),
{
    if servers.len() == 0 {
        servers
    } else if is_builtin_server(
        orchestrator@.records,
        orchestrator.config.servers@,
        servers.last().server_key,
    ) {
        visible_servers(servers.drop_last(), orchestrator)
    } else {
        visible_servers(servers.drop_last(), orchestrator).push(servers.last())
    }
}

/// The position of an exposed name among those from `from` on; their number
/// where it is not there.
pub open spec fn exposed_index(exposed: Seq<ExposedView>, name: Seq<char>, from: int) -> int
    decreases exposed.len() - from,
{
    if from >= exposed.len() {
        exposed.len() as int
    } else if exposed[from].exposed_name == name {
        from
    } else {
        exposed_index(exposed, name, from + 1)
    }
}

/// The tool behind an exposed name.
pub open spec fn exposed_get(exposed: Seq<ExposedView>, name: Seq<char>) -> Option<ExposedView> {
    let at = exposed_index(exposed, name, 0);
    if at < exposed.len() {
        Some(exposed[at])
    } else {
        None
    }
}

/// The label where a tool is not known: that of the first server.
pub open spec fn fallback_label(servers: Seq<BindingView>) -> Seq<char> {
    if servers.len() > 0 {
        servers[0].label
    } else {
        DEFAULT_SERVER_LABEL@
    }
}

/// Whether an item is a list of tools under the given label.
pub open spec fn is_list_of(item: JsonView, label: Seq<char>) -> bool {
    item.get_text("type"@) == Some(ITEM_MCP_LIST_TOOLS@) && item.get_text("server_label"@) == Some(
        label,
    )
}

/// Whether there is one list of tools for each server, in their order, under
/// the label of the server.
pub open spec fn lists_servers(lists: Seq<JsonView>, servers: Seq<BindingView>) -> bool {
    &&& lists.len() == servers.len()
    &&& forall|i: int| 0 <= i < lists.len() ==> is_list_of(#[trigger] lists[i], servers[i].label)
}

/// Whether there is one list of tools for each server, in their order, under
/// the label of the server.
pub fn are_lists_of(lists: &Vec<Json>, servers: &Vec<McpServerBinding>) -> (r: bool)
    ensures
        r == lists_servers(json_views(lists@), binding_views(servers@)),
{
    let ghost given = json_views(lists@);
    let ghost wanted = binding_views(servers@);
    if lists.len() != servers.len() {
        assert(given.len() != wanted.len());
        return false;
    }
    for i in 0..lists.len()
        invariant
            given == json_views(lists@),
            wanted == binding_views(servers@),
            lists@.len() == servers@.len(),
            forall|j: int| 0 <= j < i ==> is_list_of(#[trigger] given[j], wanted[j].label),
    {
        assert(given[i as int] == lists@[i as int]@);
        assert(wanted[i as int] == servers@[i as int]@);
        if !lists[i].text_is("type", ITEM_MCP_LIST_TOOLS) || !lists[i].text_is(
            "server_label",
            servers[i].label.as_str(),
        ) {
            return false;
        }
    }
    true
}

/// The labels and tools of a list.
pub open spec fn listed_views(list: Seq<(String, Vec<ToolEntry>)>) -> Seq<
    (Seq<char>, Seq<EntryView>),
> {
    Seq::new(list.len(), |i: int| (list[i].0@, tool_views(list[i].1@)))
}

/// For each server its label and its tools.
pub open spec fn tools_listed(tools: Seq<EntryView>, servers: Seq<BindingView>) -> Seq<
    (Seq<char>, Seq<EntryView>),
> {
    Seq::new(
        servers.len(),
        |i: int| (servers[i].label, of_server(tools, servers[i].server_key)),
    )
}

/// What the lists of tools of some servers are made of: for each server its
/// label and those of its tools that the request sees.
pub fn tool_lists(session: &McpToolSession<'_>, servers: &Vec<McpServerBinding>) -> (r: Vec<
    (String, Vec<ToolEntry>),
>)
    ensures
        listed_views(r@) == tools_listed(
            tool_views(session.mcp_tools@),
            binding_views(servers@),
        ),
        r@.len() == servers@.len(),
        forall|i: int|
            0 <= i < r@.len() ==> (#[trigger] r@[i]).0@ == servers@[i].label@ && tool_views(r@[i].1@)
                == of_server(tool_views(session.mcp_tools@), servers@[i].server_key@),
{
    let mut r: Vec<(String, Vec<ToolEntry>)> = Vec::new();
    for n in 0..servers.len()
        invariant
            r@.len() == n,
            forall|i: int|
                0 <= i < r@.len() ==> (#[trigger] r@[i]).0@ == servers@[i].label@ && tool_views(
                    r@[i].1@,
                ) == of_server(tool_views(session.mcp_tools@), servers@[i].server_key@),
    {
        let server = &servers[n];
        r.push((server.label.clone(), session.list_tools_for_server(server.server_key.as_str())));
    }
    r
}

/// The tools of one server.
pub open spec fn of_server(tools: Seq<EntryView>, key: Seq<char>) -> Seq<EntryView>
    decreases tools.len(),
{
    if tools.len() == 0 {
        tools
    } else if tools.last().name.0 == key {
        of_server(tools.drop_last(), key).push(tools.last())
    } else {
        of_server(tools.drop_last(), key)
    }
}

/// The message where a tool is not exposed.
pub open spec fn not_exposed_text(name: Seq<char>) -> Seq<char> {
    "Tool '"@ + name + "' is not in this session's exposed tool map"@
}

/// All that a request needs to use MCP tools.
pub struct McpToolSession<'a> {
    pub orchestrator: &'a McpOrchestrator,
    pub request_ctx: McpRequestContext<'a>,
    /// All servers of the session.
    pub all_mcp_servers: Vec<McpServerBinding>,
    /// The servers that are shown to the client.
    pub mcp_servers: Vec<McpServerBinding>,
    /// The tools that the request sees.
    pub mcp_tools: Vec<ToolEntry>,
    /// Those tools under their exposed names.
    pub exposed: Vec<ExposedTool>,
}

/// Two tools behind one exposed name are one tool: where the name of the tool
/// at `i` is looked up, that tool is found.
pub proof fn law_exposed_lookup(tools: Seq<EntryView>, servers: Seq<BindingView>, i: int)
    requires
        0 <= i < tools.len(),
    ensures
        exposed_get(
            exposed_tools(tools, servers),
            exposed_tools(tools, servers)[i].exposed_name,
        ) == Some(exposed_tools(tools, servers)[i]),
{
    law_exposed_names_are_unique(tools, servers);
    let exposed = exposed_tools(tools, servers);
    let name = exposed[i].exposed_name;
    lemma_exposed_index(exposed, name, 0);
    let at = exposed_index(exposed, name, 0);
    let names = exposed_names(tools, servers, tools.len() as int);
    if at != i {
        assert(names[at] == names[i]);
    }
}

proof fn lemma_exposed_index(exposed: Seq<ExposedView>, name: Seq<char>, from: int)
    requires
        0 <= from <= exposed.len(),
    ensures
        from <= exposed_index(exposed, name, from) <= exposed.len(),
        exposed_index(exposed, name, from) < exposed.len() ==> exposed[exposed_index(
            exposed,
            name,
            from,
        )].exposed_name == name,
        forall|j: int|
            from <= j < exposed_index(exposed, name, from) ==> (#[trigger] exposed[j]).exposed_name
                != name,
    decreases exposed.len() - from,
{
    if from < exposed.len() && exposed[from].exposed_name != name {
        lemma_exposed_index(exposed, name, from + 1);
    }
}

impl<'a> McpToolSession<'a> {
    /// What always holds of a session: its tools and names are those of its
    /// servers.
    pub open spec fn wf(self) -> bool {
        let servers = binding_views(self.all_mcp_servers@);
        &&& tool_views(self.mcp_tools@) == session_tools(
            self.orchestrator@.inventory.tools,
            servers,
        )
        &&& exposed_views(self.exposed@) == exposed_tools(tool_views(self.mcp_tools@), servers)
        &&& binding_views(self.mcp_servers@) == visible_servers(servers, *self.orchestrator)
    }

    /// The session of a request that uses the given servers.
    pub fn new(
        orchestrator: &'a McpOrchestrator,
        mcp_servers: Vec<McpServerBinding>,
        request_id: &str,
    ) -> (session: McpToolSession<'a>)
        ensures
            session.wf(),
            *session.orchestrator == *orchestrator,
            session.all_mcp_servers == mcp_servers,
            session.request_ctx.wf(),
            *session.request_ctx.orchestrator == *orchestrator,
            session.request_ctx.request_id@ == request_id@,
            session.request_ctx.approval_mode == ApprovalMode::PolicyOnly,
            session.request_ctx.tenant_ctx.tenant_id@ == "default"@,
            session.request_ctx.dynamic_tools@ == empty_inventory(),
            session.request_ctx.dynamic_clients@ == no_clients(),
    {
        let request_ctx = orchestrator.create_request_context(
            request_id,
            TenantContext::default(),
            ApprovalMode::PolicyOnly,
        );
        let ghost servers = binding_views(mcp_servers@);
        let mut server_keys: Vec<String> = Vec::new();
        for i in 0..mcp_servers.len()
            invariant
                server_keys@.len() == i,
                forall|j: int|
                    0 <= j < i ==> (#[trigger] server_keys@[j])@ == mcp_servers@[j].server_key@,
        {
            server_keys.push(mcp_servers[i].server_key.clone());
        }
        assert(views(server_keys@) =~= binding_keys(servers));
        let listed = orchestrator.list_tools_for_servers(&server_keys);
        let mcp_tools = McpToolSession::keep_allowed(&listed, &mcp_servers);
        let exposed = build_exposed_function_tools(&mcp_tools, &mcp_servers);
        let visible = McpToolSession::keep_visible(orchestrator, &mcp_servers);
        McpToolSession {
            orchestrator,
            request_ctx,
            all_mcp_servers: mcp_servers,
            mcp_servers: visible,
            mcp_tools,
            exposed,
        }
    }

    fn keep_allowed(tools: &Vec<ToolEntry>, servers: &Vec<McpServerBinding>) -> (kept: Vec<
        ToolEntry,
    >)
        ensures
            tool_views(kept@) == allowed_only(tool_views(tools@), binding_views(servers@)),
    {
        let ghost all = tool_views(tools@);
        let mut kept: Vec<ToolEntry> = Vec::new();
        assert(tool_views(kept@) =~= allowed_only(all.take(0), binding_views(servers@)));
        for i in 0..tools.len()
            invariant
                all == tool_views(tools@),
                tool_views(kept@) == allowed_only(all.take(i as int), binding_views(servers@)),
        {
            let ghost before = tool_views(kept@);
            proof {
                let next = all.take(i + 1);
                assert(next.drop_last() =~= all.take(i as int));
                assert(next.last() == tools@[i as int]@);
            }
            if may_expose(servers, &tools[i]) {
                kept.push(tools[i].clone());
                assert(tool_views(kept@) =~= before.push(tools@[i as int]@));
            }
        }
        assert(all.take(tools@.len() as int) =~= all);
        kept
    }

    fn keep_visible(
        orchestrator: &McpOrchestrator,
        servers: &Vec<McpServerBinding>,
    ) -> (kept: Vec<McpServerBinding>)
        ensures
            binding_views(kept@) == visible_servers(binding_views(servers@), *orchestrator),
    {
        let names = orchestrator.builtin_server_names();
        let ghost all = binding_views(servers@);
        let mut kept: Vec<McpServerBinding> = Vec::new();
        assert(binding_views(kept@) =~= visible_servers(all.take(0), *orchestrator));
        for i in 0..servers.len()
            invariant
                all == binding_views(servers@),
                binding_views(kept@) == visible_servers(all.take(i as int), *orchestrator),
                forall|name: Seq<char>| #[trigger]
                    views(names@).contains(name) <==> is_builtin_server(
                        orchestrator@.records,
                        orchestrator.config.servers@,
                        name,
                    ),
        {
            let ghost before = binding_views(kept@);
            proof {
                let next = all.take(i + 1);
                assert(next.drop_last() =~= all.take(i as int));
                assert(next.last() == servers@[i as int]@);
            }
            if !list_contains(&names, servers[i].server_key.as_str()) {
                kept.push(servers[i].clone());
                assert(binding_views(kept@) =~= before.push(servers@[i as int]@));
            }
        }
        assert(all.take(servers@.len() as int) =~= all);
        kept
    }

    /// The orchestrator.
    pub fn orchestrator(&self) -> (r: &McpOrchestrator)
        ensures
            *r == *self.orchestrator,
    {
        self.orchestrator
    }

    /// The state of the request.
    pub fn request_ctx(&self) -> (r: &McpRequestContext<'a>)
        ensures
            *r == self.request_ctx,
    {
        &self.request_ctx
    }

    /// The servers that are shown to the client.
    pub fn mcp_servers(&self) -> (r: &Vec<McpServerBinding>)
        ensures
            *r == self.mcp_servers,
    {
        &self.mcp_servers
    }

    /// All servers of the session.
    pub fn all_mcp_servers(&self) -> (r: &Vec<McpServerBinding>)
        ensures
            *r == self.all_mcp_servers,
    {
        &self.all_mcp_servers
    }

    /// The tools that the request sees.
    pub fn mcp_tools(&self) -> (r: &Vec<ToolEntry>)
        ensures
            *r == self.mcp_tools,
    {
        &self.mcp_tools
    }

    /// The tool behind an exposed name.
    pub fn exposed_tool(&self, tool_name: &str) -> (r: Option<&ExposedTool>)
        ensures
            match r {
                Some(e) => exposed_get(exposed_views(self.exposed@), tool_name@) == Some(e@),
                None => exposed_get(exposed_views(self.exposed@), tool_name@) is None,
            },
    {
        let ghost all = exposed_views(self.exposed@);
        let mut i: usize = 0;
        while i < self.exposed.len()
            invariant
                all == exposed_views(self.exposed@),
                i <= self.exposed@.len(),
                exposed_index(all, tool_name@, 0) == exposed_index(all, tool_name@, i as int),
            decreases self.exposed@.len() - i,
        {
            assert(all[i as int] == self.exposed@[i as int]@);
            if text_eq(self.exposed[i].exposed_name.as_str(), tool_name) {
                return Some(&self.exposed[i]);
            }
            i += 1;
        }
        None
    }

    /// Whether the model can call a tool by this name.
    pub fn has_exposed_tool(&self, tool_name: &str) -> (r: bool)
        ensures
            r == (exposed_get(exposed_views(self.exposed@), tool_name@) is Some),
    {
        self.exposed_tool(tool_name).is_some()
    }

    /// The exposed name of each tool.
    pub fn exposed_name_by_qualified(&self) -> (r: Vec<(QualifiedToolName, String)>)
        requires
            self.wf(),
        ensures
            r@.len() == self.mcp_tools@.len(),
            forall|i: int|
                0 <= i < r@.len() ==> (#[trigger] r@[i]).0@ == self.mcp_tools@[i]@.name && r@[i].1@
                    == self.exposed@[i]@.exposed_name,
    {
        assert(exposed_views(self.exposed@).len() == self.exposed@.len());
        assert(tool_views(self.mcp_tools@).len() == self.mcp_tools@.len());
        let mut r: Vec<(QualifiedToolName, String)> = Vec::new();
        for i in 0..self.mcp_tools.len()
            invariant
                self.exposed@.len() == self.mcp_tools@.len(),
                r@.len() == i,
                forall|j: int|
                    0 <= j < i ==> (#[trigger] r@[j]).0@ == self.mcp_tools@[j]@.name && r@[j].1@
                        == self.exposed@[j]@.exposed_name,
        {
            r.push(
                (self.mcp_tools[i].qualified_name.clone(), self.exposed[i].exposed_name.clone()),
            );
        }
        r
    }

    /// The label of the first server.
    fn first_label(&self) -> (label: String)
        ensures
            label@ == fallback_label(binding_views(self.all_mcp_servers@)),
    {
        if self.all_mcp_servers.len() > 0 {
            assert(binding_views(self.all_mcp_servers@)[0] == self.all_mcp_servers@[0]@);
            self.all_mcp_servers[0].label.clone()
        } else {
            DEFAULT_SERVER_LABEL.to_owned()
        }
    }

    /// Whether `output` is the record of a call by exposed name.
    pub open spec fn is_record(
        self,
        output: ToolExecutionOutput,
        input: ToolExecutionInput,
        outcome: CallOutcome,
    ) -> bool {
        match exposed_get(exposed_views(self.exposed@), input.tool_name@) {
            Some(e) => records(
                output,
                input.call_id@,
                input.tool_name@,
                input.arguments@,
                e.server_key,
                e.server_label,
                resolved_outcome(
                    e.resolved_tool_name,
                    e.server_key,
                    tool_get(
                        self.orchestrator@.inventory.tools,
                        (e.server_key, e.resolved_tool_name),
                    ),
                    outcome,
                ),
            ),
            None => records(
                output,
                input.call_id@,
                input.tool_name@,
                input.arguments@,
                UNKNOWN_SERVER_KEY@,
                fallback_label(binding_views(self.all_mcp_servers@)),
                failed_outcome(ResponseFormat::Passthrough, not_exposed_text(input.tool_name@)),
            ),
        }
    }

    /// The record of a call by exposed name. A name that is not exposed is
    /// answered with an error, and the outcome does not matter.
    pub fn execute_tool(
        &self,
        input: ToolExecutionInput,
        outcome: CallOutcome,
        duration_ms: u64,
    ) -> (output: ToolExecutionOutput)
        ensures
            self.is_record(output, input, outcome),
            match exposed_get(exposed_views(self.exposed@), input.tool_name@) {
                Some(e) => {
                    &&& records(
                        output,
                        input.call_id@,
                        input.tool_name@,
                        input.arguments@,
                        e.server_key,
                        e.server_label,
                        resolved_outcome(
                            e.resolved_tool_name,
                            e.server_key,
                            tool_get(
                                self.orchestrator@.inventory.tools,
                                (e.server_key, e.resolved_tool_name),
                            ),
                            outcome,
                        ),
                    )
                    &&& output.duration_ms == duration_ms
                },
                None => {
                    &&& records(
                        output,
                        input.call_id@,
                        input.tool_name@,
                        input.arguments@,
                        UNKNOWN_SERVER_KEY@,
                        fallback_label(binding_views(self.all_mcp_servers@)),
                        failed_outcome(
                            ResponseFormat::Passthrough,
                            not_exposed_text(input.tool_name@),
                        ),
                    )
                    &&& output.duration_ms == 0
                },
            },
    {
        match self.exposed_tool(input.tool_name.as_str()) {
            Some(e) => {
                let invoked_name: String = input.tool_name.clone();
                let resolved = ToolExecutionInput {
                    call_id: input.call_id,
                    tool_name: e.resolved_tool_name.clone(),
                    arguments: input.arguments,
                };
                let mut output = self.orchestrator.execute_tool_resolved(
                    resolved,
                    e.server_key.as_str(),
                    e.server_label.as_str(),
                    outcome,
                    duration_ms,
                );
                output.tool_name = invoked_name;
                output
            },
            None => {
                let mut message: String = "Tool '".to_owned();
                message.append(input.tool_name.as_str());
                message.append("' is not in this session's exposed tool map");
                ToolExecutionOutput {
                    call_id: input.call_id,
                    tool_name: input.tool_name,
                    server_key: UNKNOWN_SERVER_KEY.to_owned(),
                    server_label: self.first_label(),
                    arguments_str: print(&input.arguments),
                    output: make_error_object(message.as_str()),
                    is_error: true,
                    error_message: Some(message),
                    response_format: ResponseFormat::Passthrough,
                    duration_ms: 0,
                }
            },
        }
    }

    /// The label of the server behind an exposed name, or that of the first
    /// server.
    pub fn resolve_tool_server_label(&self, tool_name: &str) -> (label: String)
        ensures
            label@ == tool_label(*self, tool_name@),
            label@ == (match exposed_get(exposed_views(self.exposed@), tool_name@) {
                Some(e) => e.server_label,
                None => fallback_label(binding_views(self.all_mcp_servers@)),
            }),
    {
        match self.exposed_tool(tool_name) {
            Some(e) => e.server_label.clone(),
            None => self.first_label(),
        }
    }

    /// Whether a server is internal.
    fn is_internal_server_key(&self, server_key: &str) -> (r: bool)
        ensures
            r == is_internal_server(
                self.orchestrator@.records,
                self.orchestrator.config.servers@,
                server_key@,
            ),
    {
        list_contains(&self.orchestrator.internal_server_names(), server_key)
    }

    /// Whether an internal server has this label.
    pub open spec fn label_is_internal(self, label: Seq<char>) -> bool {
        exists|i: int|
            0 <= i < self.all_mcp_servers@.len() && (#[trigger] self.all_mcp_servers@[i]).label@
                == label && is_internal_server(
                self.orchestrator@.records,
                self.orchestrator.config.servers@,
                self.all_mcp_servers@[i].server_key@,
            )
    }

    /// Whether an internal server has this label.
    pub fn is_internal_server_label(&self, server_label: &str) -> (r: bool)
        ensures
            r == self.label_is_internal(server_label@),
    {
        for i in 0..self.all_mcp_servers.len()
            invariant
                forall|j: int|
                    0 <= j < i && (#[trigger] self.all_mcp_servers@[j]).label@ == server_label@
                        ==> !is_internal_server(
                        self.orchestrator@.records,
                        self.orchestrator.config.servers@,
                        self.all_mcp_servers@[j].server_key@,
                    ),
        {
            let binding = &self.all_mcp_servers[i];
            if text_eq(binding.label.as_str(), server_label) && self.is_internal_server_key(
                binding.server_key.as_str(),
            ) {
                return true;
            }
        }
        false
    }

    /// Whether the tool behind an exposed name belongs to an internal server.
    pub open spec fn tool_is_internal(self, tool_name: Seq<char>) -> bool {
        match exposed_get(exposed_views(self.exposed@), tool_name) {
            Some(e) => is_internal_server(
                self.orchestrator@.records,
                self.orchestrator.config.servers@,
                e.server_key,
            ),
            None => false,
        }
    }

    /// Whether the tool behind an exposed name belongs to an internal server.
    pub fn is_internal_tool(&self, tool_name: &str) -> (r: bool)
        ensures
            r == self.tool_is_internal(tool_name@),
    {
        match self.exposed_tool(tool_name) {
            Some(e) => self.is_internal_server_key(e.server_key.as_str()),
            None => false,
        }
    }

    /// The tools of one server that the request sees.
    pub fn list_tools_for_server(&self, server_key: &str) -> (r: Vec<ToolEntry>)
        ensures
            tool_views(r@) == of_server(tool_views(self.mcp_tools@), server_key@),
    {
        let ghost all = tool_views(self.mcp_tools@);
        let mut r: Vec<ToolEntry> = Vec::new();
        assert(tool_views(r@) =~= of_server(all.take(0), server_key@));
        for i in 0..self.mcp_tools.len()
            invariant
                all == tool_views(self.mcp_tools@),
                tool_views(r@) == of_server(all.take(i as int), server_key@),
        {
            let ghost before = tool_views(r@);
            proof {
                let next = all.take(i + 1);
                assert(next.drop_last() =~= all.take(i as int));
                assert(next.last() == self.mcp_tools@[i as int]@);
            }
            if text_eq(self.mcp_tools[i].server_key(), server_key) {
                r.push(self.mcp_tools[i].clone());
                assert(tool_views(r@) =~= before.push(self.mcp_tools@[i as int]@));
            }
        }
        assert(all.take(self.mcp_tools@.len() as int) =~= all);
        r
    }

    /// The response format of the tool behind an exposed name.
    pub open spec fn format_of(self, tool_name: Seq<char>) -> ResponseFormat {
        match exposed_get(exposed_views(self.exposed@), tool_name) {
            Some(e) => e.response_format,
            None => ResponseFormat::Passthrough,
        }
    }

    /// The response format of the tool behind an exposed name; results of an
    /// unknown tool are passed through.
    pub fn tool_response_format(&self, tool_name: &str) -> (r: ResponseFormat)
        ensures
            r == self.format_of(tool_name@),
    {
        match self.exposed_tool(tool_name) {
            Some(e) => e.response_format,
            None => ResponseFormat::Passthrough,
        }
    }

    /// Puts the output of a response in order: the lists of tools, one for each
    /// server that is shown, then the tool calls, then what was there.
    pub fn inject_mcp_output_items(
        &self,
        output: &mut Vec<Json>,
        list_tools_items: Vec<Json>,
        tool_call_items: Vec<Json>,
    )
        requires
            lists_servers(json_views(list_tools_items@), binding_views(self.mcp_servers@)),
        ensures
            json_views(final(output)@) == json_views(list_tools_items@) + json_views(
                tool_call_items@,
            ) + json_views(old(output)@),
    {
        let mut items = list_tools_items;
        let mut calls = tool_call_items;
        let ghost before = output@;
        items.append(&mut calls);
        items.append(output);
        let ghost all = items@;
        core::mem::swap(output, &mut items);
        assert(json_views(all) =~= json_views(list_tools_items@) + json_views(tool_call_items@)
            + json_views(before));
    }
}

} // verus!

//! What the connected servers offer: tools by qualified name, with their aliases,
//! prompts and resources.

use vstd::prelude::*;

use crate::config::ResponseFormatConfig;
use crate::json::{clone_entries, entry_views, opt_json, Json, JsonView};
use crate::order::{pair_list, Pair};
use crate::text::{clone_opt, list_contains, opt_view, text_eq, views};

verus! {

broadcast use vstd::string::group_string_axioms;

// ---------------------------------------------------------------------------
// Types
// ---------------------------------------------------------------------------

/// How the result of a tool is presented to the client.
#[derive(Debug, Clone, Copy, PartialEq, Eq, Structural)]
pub enum ResponseFormat {
    Passthrough,
    WebSearchCall,
    CodeInterpreterCall,
    FileSearchCall,
}

impl ResponseFormat {
    /// The format that a configured format stands for.
    pub open spec fn of(config: ResponseFormatConfig) -> ResponseFormat {
        match config {
            ResponseFormatConfig::Passthrough => ResponseFormat::Passthrough,
            ResponseFormatConfig::WebSearchCall => ResponseFormat::WebSearchCall,
            ResponseFormatConfig::CodeInterpreterCall => ResponseFormat::CodeInterpreterCall,
            ResponseFormatConfig::FileSearchCall => ResponseFormat::FileSearchCall,
        }
    }

    /// The format that a configured format stands for.
    pub fn from_config(config: ResponseFormatConfig) -> (r: ResponseFormat)
        ensures
            r == ResponseFormat::of(config),
    {
        match config {
            ResponseFormatConfig::Passthrough => ResponseFormat::Passthrough,
            ResponseFormatConfig::WebSearchCall => ResponseFormat::WebSearchCall,
            ResponseFormatConfig::CodeInterpreterCall => ResponseFormat::CodeInterpreterCall,
            ResponseFormatConfig::FileSearchCall => ResponseFormat::FileSearchCall,
        }
    }
}

/// Where a tool comes from: a server of the configuration, or one that a
/// request brought along.
#[derive(Debug, Clone, Copy, PartialEq, Eq, Structural)]
pub enum ToolCategory {
    Static,
    Dynamic,
}

/// A tool's name together with the server that it belongs to.
#[derive(Debug, PartialEq, Eq)]
pub struct QualifiedToolName {
    pub server_key: String,
    pub tool_name: String,
}

/// Server and tool.
pub type NameView = (Seq<char>, Seq<char>);

/// What a server says of how a tool behaves.
#[derive(Debug, PartialEq, Eq)]
pub struct ToolAnnotations {
    pub title: Option<String>,
    /// The tool changes nothing.
    pub read_only_hint: Option<bool>,
    /// The tool may destroy something.
    pub destructive_hint: Option<bool>,
    /// A second call with the same arguments changes nothing more.
    pub idempotent_hint: Option<bool>,
    /// The tool may reach beyond its server.
    pub open_world_hint: Option<bool>,
}

/// What [`ToolAnnotations`] hold.
pub struct AnnotationsView {
    pub title: Option<Seq<char>>,
    pub read_only_hint: Option<bool>,
    pub destructive_hint: Option<bool>,
    pub idempotent_hint: Option<bool>,
    pub open_world_hint: Option<bool>,
}

/// A tool as its server describes it.
#[derive(Debug, PartialEq, Eq)]
pub struct Tool {
    pub name: String,
    pub title: Option<String>,
    pub description: Option<String>,
    pub input_schema: Json,
    pub output_schema: Option<Json>,
    pub annotations: Option<ToolAnnotations>,
    pub icons: Option<Json>,
}

/// What a [`Tool`] holds.
pub struct ToolView {
    pub name: Seq<char>,
    pub title: Option<Seq<char>>,
    pub description: Option<Seq<char>>,
    pub input_schema: JsonView,
    pub output_schema: Option<JsonView>,
    pub annotations: Option<AnnotationsView>,
    pub icons: Option<JsonView>,
}

/// A prompt or a resource that a server offers: its name or address, and its
/// description.
#[derive(Debug, PartialEq, Eq)]
pub struct Offer {
    pub key: String,
    pub content: Json,
}

/// A prompt or a resource in the inventory.
#[derive(Debug, PartialEq, Eq)]
pub struct OfferEntry {
    pub key: String,
    pub server_key: String,
    pub content: Json,
}

/// What an [`OfferEntry`] holds.
pub struct OfferView {
    pub key: Seq<char>,
    pub server: Seq<char>,
    pub content: JsonView,
}

/// How the arguments of an aliased tool are rewritten.
#[derive(Debug, PartialEq, Eq)]
pub struct ArgMapping {
    pub renames: Vec<(String, String)>,
    pub defaults: Vec<(String, Json)>,
}

/// What an [`ArgMapping`] holds.
pub struct MappingView {
    pub renames: Seq<Pair>,
    pub defaults: Seq<(Seq<char>, JsonView)>,
}

/// The tool that an alias stands for.
#[derive(Debug, PartialEq, Eq)]
pub struct AliasTarget {
    pub target: QualifiedToolName,
    pub arg_mapping: Option<ArgMapping>,
}

/// What an [`AliasTarget`] holds.
pub struct AliasView {
    pub target: NameView,
    pub arg_mapping: Option<MappingView>,
}

/// A tool in the inventory.
#[derive(Debug, PartialEq, Eq)]
pub struct ToolEntry {
    pub qualified_name: QualifiedToolName,
    pub tool: Tool,
    pub response_format: ResponseFormat,
    pub alias_target: Option<AliasTarget>,
    pub category: ToolCategory,
}

/// What a [`ToolEntry`] holds.
pub struct EntryView {
    pub name: NameView,
    pub tool: ToolView,
    pub response_format: ResponseFormat,
    pub alias: Option<AliasView>,
    pub category: ToolCategory,
}

impl View for QualifiedToolName {
    type V = NameView;

    open spec fn view(&self) -> NameView {
        (self.server_key@, self.tool_name@)
    }
}

impl View for ToolAnnotations {
    type V = AnnotationsView;

    open spec fn view(&self) -> AnnotationsView {
        AnnotationsView {
            title: opt_view(self.title),
            read_only_hint: self.read_only_hint,
            destructive_hint: self.destructive_hint,
            idempotent_hint: self.idempotent_hint,
            open_world_hint: self.open_world_hint,
        }
    }
}

/// The view of optional annotations.
pub open spec fn opt_annotations(a: Option<ToolAnnotations>) -> Option<AnnotationsView> {
    match a {
        Some(a) => Some(a@),
        None => None,
    }
}

impl View for Tool {
    type V = ToolView;

    open spec fn view(&self) -> ToolView {
        ToolView {
            name: self.name@,
            title: opt_view(self.title),
            description: opt_view(self.description),
            input_schema: self.input_schema@,
            output_schema: opt_json(self.output_schema),
            annotations: opt_annotations(self.annotations),
            icons: opt_json(self.icons),
        }
    }
}

impl View for OfferEntry {
    type V = OfferView;

    open spec fn view(&self) -> OfferView {
        OfferView { key: self.key@, server: self.server_key@, content: self.content@ }
    }
}

/// The views of a list of prompts or resources.
pub open spec fn kept_views(list: Seq<OfferEntry>) -> Seq<OfferView> {
    Seq::new(list.len(), |i: int| list[i]@)
}

/// Names or addresses with descriptions.
pub open spec fn offer_views(list: Seq<Offer>) -> Seq<(Seq<char>, JsonView)> {
    Seq::new(list.len(), |i: int| (list[i].key@, list[i].content@))
}

impl View for ArgMapping {
    type V = MappingView;

    open spec fn view(&self) -> MappingView {
        MappingView { renames: pair_list(self.renames@), defaults: entry_views(self.defaults@) }
    }
}

/// The view of an optional mapping.
pub open spec fn opt_mapping(m: Option<ArgMapping>) -> Option<MappingView> {
    match m {
        Some(m) => Some(m@),
        None => None,
    }
}

impl View for AliasTarget {
    type V = AliasView;

    open spec fn view(&self) -> AliasView {
        AliasView { target: self.target@, arg_mapping: opt_mapping(self.arg_mapping) }
    }
}

/// The view of an optional alias.
pub open spec fn opt_alias(a: Option<AliasTarget>) -> Option<AliasView> {
    match a {
        Some(a) => Some(a@),
        None => None,
    }
}

impl View for ToolEntry {
    type V = EntryView;

    open spec fn view(&self) -> EntryView {
        EntryView {
            name: self.qualified_name@,
            tool: self.tool@,
            response_format: self.response_format,
            alias: opt_alias(self.alias_target),
            category: self.category,
        }
    }
}

/// The views of a list of entries.
pub open spec fn tool_views(list: Seq<ToolEntry>) -> Seq<EntryView> {
    Seq::new(list.len(), |i: int| list[i]@)
}

// ---------------------------------------------------------------------------
// Copies
// ---------------------------------------------------------------------------

impl Clone for QualifiedToolName {
    fn clone(&self) -> (copy: Self)
        ensures
            copy@ == self@,
    {
        QualifiedToolName {
            server_key: self.server_key.clone(),
            tool_name: self.tool_name.clone(),
        }
    }
}

impl Clone for ToolAnnotations {
    fn clone(&self) -> (copy: Self)
        ensures
            copy@ == self@,
    {
        ToolAnnotations {
            title: clone_opt(&self.title),
            read_only_hint: self.read_only_hint,
            destructive_hint: self.destructive_hint,
            idempotent_hint: self.idempotent_hint,
            open_world_hint: self.open_world_hint,
        }
    }
}

/// A copy of optional annotations.
pub fn clone_annotations(a: &Option<ToolAnnotations>) -> (copy: Option<ToolAnnotations>)
    ensures
        opt_annotations(copy) == opt_annotations(*a),
{
    match a {
        Some(a) => Some(a.clone()),
        None => None,
    }
}

/// A copy of an optional value.
fn clone_json(json: &Option<Json>) -> (copy: Option<Json>)
    ensures
        opt_json(copy) == opt_json(*json),
{
    match json {
        Some(v) => Some(v.clone()),
        None => None,
    }
}

impl Clone for Tool {
    fn clone(&self) -> (copy: Self)
        ensures
            copy@ == self@,
    {
        Tool {
            name: self.name.clone(),
            title: clone_opt(&self.title),
            description: clone_opt(&self.description),
            input_schema: self.input_schema.clone(),
            output_schema: clone_json(&self.output_schema),
            annotations: clone_annotations(&self.annotations),
            icons: clone_json(&self.icons),
        }
    }
}

impl Clone for ArgMapping {
    fn clone(&self) -> (copy: Self)
        ensures
            copy@ == self@,
    {
        ArgMapping {
            renames: crate::config::clone_pairs(&self.renames),
            defaults: clone_entries(&self.defaults),
        }
    }
}

impl Clone for AliasTarget {
    fn clone(&self) -> (copy: Self)
        ensures
            copy@ == self@,
    {
        AliasTarget {
            target: self.target.clone(),
            arg_mapping: match &self.arg_mapping {
                Some(m) => Some(m.clone()),
                None => None,
            },
        }
    }
}

impl Clone for ToolEntry {
    fn clone(&self) -> (copy: Self)
        ensures
            copy@ == self@,
    {
        ToolEntry {
            qualified_name: self.qualified_name.clone(),
            tool: self.tool.clone(),
            response_format: self.response_format,
            alias_target: match &self.alias_target {
                Some(a) => Some(a.clone()),
                None => None,
            },
            category: self.category,
        }
    }
}

// ---------------------------------------------------------------------------
// Names, mappings and entries
// ---------------------------------------------------------------------------

/// The written form of a qualified name, `server:tool`.
pub open spec fn qualified_text(server: Seq<char>, tool: Seq<char>) -> Seq<char> {
    server + ":"@ + tool
}

impl QualifiedToolName {
    /// The name of a tool on a server.
    pub fn new(server_key: &str, tool_name: &str) -> (r: QualifiedToolName)
        ensures
            r@ == (server_key@, tool_name@),
    {
        QualifiedToolName { server_key: server_key.to_owned(), tool_name: tool_name.to_owned() }
    }

    /// The server.
    pub fn server_key(&self) -> (r: &str)
        ensures
            r@ == self@.0,
    {
        self.server_key.as_str()
    }

    /// The tool.
    pub fn tool_name(&self) -> (r: &str)
        ensures
            r@ == self@.1,
    {
        self.tool_name.as_str()
    }

    /// The written form, `server:tool`.
    pub fn to_string(&self) -> (r: String)
        ensures
            r@ == qualified_text(self@.0, self@.1),
    {
        let mut r: String = self.server_key.clone();
        r.append(":");
        r.append(self.tool_name.as_str());
        r
    }
}

impl ArgMapping {
    /// A mapping that changes nothing.
    pub fn new() -> (r: ArgMapping)
        ensures
            r@.renames == Seq::<Pair>::empty(),
            r@.defaults == Seq::<(Seq<char>, JsonView)>::empty(),
    {
        let r = ArgMapping { renames: Vec::new(), defaults: Vec::new() };
        assert(r@.renames =~= Seq::<Pair>::empty());
        assert(r@.defaults =~= Seq::<(Seq<char>, JsonView)>::empty());
        r
    }

    /// This mapping, then `from` renamed to `to`.
    pub fn with_rename(self, from: &str, to: &str) -> (r: ArgMapping)
        ensures
            r@.renames == self@.renames.push((from@, to@)),
            r@.defaults == self@.defaults,
    {
        let mut r = self;
        let ghost before = r@.renames;
        r.renames.push((from.to_owned(), to.to_owned()));
        assert(r@.renames =~= before.push((from@, to@)));
        r
    }

    /// This mapping, with `value` for `key` where it is missing.
    pub fn with_default(self, key: &str, value: Json) -> (r: ArgMapping)
        ensures
            r@.renames == self@.renames,
            r@.defaults == self@.defaults.push((key@, value@)),
    {
        let mut r = self;
        let ghost before = r@.defaults;
        r.defaults.push((key.to_owned(), value));
        assert(r@.defaults =~= before.push((key@, value@)));
        r
    }
}

/// The entry of a tool that a server offers.
pub open spec fn server_entry(server: Seq<char>, tool: ToolView, category: ToolCategory) -> EntryView {
    EntryView {
        name: (server, tool.name),
        tool,
        response_format: ResponseFormat::Passthrough,
        alias: None,
        category,
    }
}

impl ToolEntry {
    /// An entry under any name, for a tool that is passed through.
    pub fn new(qualified_name: QualifiedToolName, tool: Tool) -> (r: ToolEntry)
        ensures
            r@ == (EntryView {
                name: qualified_name@,
                tool: tool@,
                response_format: ResponseFormat::Passthrough,
                alias: None,
                category: ToolCategory::Static,
            }),
    {
        ToolEntry {
            qualified_name,
            tool,
            response_format: ResponseFormat::Passthrough,
            alias_target: None,
            category: ToolCategory::Static,
        }
    }

    /// The entry of a tool that a server offers, under its own name.
    pub fn from_server_tool(server_key: &str, tool: Tool) -> (r: ToolEntry)
        ensures
            r@ == server_entry(server_key@, tool@, ToolCategory::Static),
    {
        let name: String = tool.name.clone();
        ToolEntry::new(QualifiedToolName { server_key: server_key.to_owned(), tool_name: name }, tool)
    }

    /// This entry, of the given category.
    pub fn with_category(self, category: ToolCategory) -> (r: ToolEntry)
        ensures
            r@ == (EntryView { category, ..self@ }),
    {
        let mut r = self;
        r.category = category;
        r
    }

    /// This entry, standing for another tool.
    pub fn with_alias(self, alias: AliasTarget) -> (r: ToolEntry)
        ensures
            r@ == (EntryView { alias: Some(alias@), ..self@ }),
    {
        let mut r = self;
        r.alias_target = Some(alias);
        r
    }

    /// This entry, presented in the given format.
    pub fn with_response_format(self, response_format: ResponseFormat) -> (r: ToolEntry)
        ensures
            r@ == (EntryView { response_format, ..self@ }),
    {
        let mut r = self;
        r.response_format = response_format;
        r
    }

    /// The server.
    pub fn server_key(&self) -> (r: &str)
        ensures
            r@ == self@.name.0,
    {
        self.qualified_name.server_key.as_str()
    }

    /// The tool.
    pub fn tool_name(&self) -> (r: &str)
        ensures
            r@ == self@.name.1,
    {
        self.qualified_name.tool_name.as_str()
    }
}

// ---------------------------------------------------------------------------
// Inventory
// ---------------------------------------------------------------------------

/// All known tools and aliases, prompts and resources.
pub struct ToolInventory {
    /// The tools; no qualified name comes twice.
    pub tools: Vec<ToolEntry>,
    /// Alias names with the tools that they stand for.
    pub aliases: Vec<(String, QualifiedToolName)>,
    /// The prompts by name.
    pub prompts: Vec<OfferEntry>,
    /// The resources by address.
    pub resources: Vec<OfferEntry>,
}

/// What a [`ToolInventory`] holds.
pub struct InventoryView {
    pub tools: Seq<EntryView>,
    pub aliases: Seq<(Seq<char>, NameView)>,
    pub prompts: Seq<OfferView>,
    pub resources: Seq<OfferView>,
}

/// An inventory that holds nothing.
pub open spec fn empty_inventory() -> InventoryView {
    InventoryView {
        tools: Seq::empty(),
        aliases: Seq::empty(),
        prompts: Seq::empty(),
        resources: Seq::empty(),
    }
}

/// The first position, from `from` on, of the prompt or resource with that key;
/// their number where there is none.
pub open spec fn offer_index(list: Seq<OfferView>, key: Seq<char>, from: int) -> int
    decreases list.len() - from,
{
    if from >= list.len() {
        list.len() as int
    } else if list[from].key == key {
        from
    } else {
        offer_index(list, key, from + 1)
    }
}

/// The prompts or resources with one more, in place of the one with its key.
pub open spec fn offer_put(list: Seq<OfferView>, offer: OfferView) -> Seq<OfferView> {
    let at = offer_index(list, offer.key, 0);
    if at < list.len() {
        list.update(at, offer)
    } else {
        list.push(offer)
    }
}

/// The prompts or resources with those that a server offers.
pub open spec fn with_offers(
    list: Seq<OfferView>,
    server: Seq<char>,
    offered: Seq<(Seq<char>, JsonView)>,
) -> Seq<OfferView>
    decreases offered.len(),
{
    if offered.len() == 0 {
        list
    } else {
        offer_put(
            with_offers(list, server, offered.drop_last()),
            OfferView { key: offered.last().0, server, content: offered.last().1 },
        )
    }
}

/// Puts a prompt or resource in, in place of the one with its key.
fn put_offer(list: &mut Vec<OfferEntry>, entry: OfferEntry)
    ensures
        kept_views(final(list)@) == offer_put(kept_views(old(list)@), entry@),
{
    let ghost before = kept_views(list@);
    let ghost view = entry@;
    let mut at: usize = 0;
    while at < list.len() && !text_eq(list[at].key.as_str(), entry.key.as_str())
        invariant
            at <= list@.len(),
            before == kept_views(list@),
            list@ == old(list)@,
            offer_index(before, entry.key@, 0) == offer_index(before, entry.key@, at as int),
        ensures
            at <= list@.len(),
            list@ == old(list)@,
            at == offer_index(before, entry.key@, 0),
        decreases list@.len() - at,
    {
        assert(before[at as int] == list@[at as int]@);
        at += 1;
    }
    if at < list.len() {
        list.set(at, entry);
        assert(kept_views(list@) =~= before.update(at as int, view));
    } else {
        list.push(entry);
        assert(kept_views(list@) =~= before.push(view));
    }
}

/// Puts in the prompts or resources that a server offers.
fn put_offers(list: &mut Vec<OfferEntry>, server_key: &str, offered: &Vec<Offer>)
    ensures
        kept_views(final(list)@) == with_offers(
            kept_views(old(list)@),
            server_key@,
            offer_views(offered@),
        ),
{
    let ghost before = kept_views(list@);
    let ghost all = offer_views(offered@);
    for i in 0..offered.len()
        invariant
            all == offer_views(offered@),
            kept_views(list@) == with_offers(before, server_key@, all.take(i as int)),
    {
        proof {
            let next = all.take(i + 1);
            assert(next.drop_last() =~= all.take(i as int));
            assert(next.last() == (offered@[i as int].key@, offered@[i as int].content@));
        }
        put_offer(
            list,
            OfferEntry {
                key: offered[i].key.clone(),
                server_key: server_key.to_owned(),
                content: offered[i].content.clone(),
            },
        );
    }
    assert(all.take(offered@.len() as int) =~= all);
}

/// Alias names with the tools that they stand for.
pub open spec fn alias_views(list: Seq<(String, QualifiedToolName)>) -> Seq<(Seq<char>, NameView)> {
    Seq::new(list.len(), |i: int| (list[i].0@, list[i].1@))
}

impl View for ToolInventory {
    type V = InventoryView;

    open spec fn view(&self) -> InventoryView {
        InventoryView {
            tools: tool_views(self.tools@),
            aliases: alias_views(self.aliases@),
            prompts: kept_views(self.prompts@),
            resources: kept_views(self.resources@),
        }
    }
}

/// The first position, from `from` on, of the tool with the given name; the
/// number of tools where there is none.
pub open spec fn tool_index(tools: Seq<EntryView>, name: NameView, from: int) -> int
    decreases tools.len() - from,
{
    if from >= tools.len() {
        tools.len() as int
    } else if tools[from].name == name {
        from
    } else {
        tool_index(tools, name, from + 1)
    }
}

/// The tool with the given name.
pub open spec fn tool_get(tools: Seq<EntryView>, name: NameView) -> Option<EntryView> {
    let at = tool_index(tools, name, 0);
    if at < tools.len() {
        Some(tools[at])
    } else {
        None
    }
}

/// The tools with one more, which takes the place of the one with its name.
pub open spec fn tool_put(tools: Seq<EntryView>, entry: EntryView) -> Seq<EntryView> {
    let at = tool_index(tools, entry.name, 0);
    if at < tools.len() {
        tools.update(at, entry)
    } else {
        tools.push(entry)
    }
}

/// The tools without those of one server.
pub open spec fn without_server(tools: Seq<EntryView>, server: Seq<char>) -> Seq<EntryView>
    decreases tools.len(),
{
    if tools.len() == 0 {
        tools
    } else if tools.last().name.0 == server {
        without_server(tools.drop_last(), server)
    } else {
        without_server(tools.drop_last(), server).push(tools.last())
    }
}

/// The tools of the given servers.
pub open spec fn of_servers(tools: Seq<EntryView>, servers: Seq<Seq<char>>) -> Seq<EntryView>
    decreases tools.len(),
{
    if tools.len() == 0 {
        tools
    } else if servers.contains(tools.last().name.0) {
        of_servers(tools.drop_last(), servers).push(tools.last())
    } else {
        of_servers(tools.drop_last(), servers)
    }
}

/// The tools with all those that a server offers put in.
pub open spec fn with_server_tools(
    tools: Seq<EntryView>,
    server: Seq<char>,
    offered: Seq<ToolView>,
    category: ToolCategory,
) -> Seq<EntryView>
    decreases offered.len(),
{
    if offered.len() == 0 {
        tools
    } else {
        tool_put(
            with_server_tools(tools, server, offered.drop_last(), category),
            server_entry(server, offered.last(), category),
        )
    }
}

/// Whether no name comes twice.
pub open spec fn names_distinct(tools: Seq<EntryView>) -> bool {
    forall|i: int, j: int|
        0 <= i < tools.len() && 0 <= j < tools.len() && i != j ==> (#[trigger] tools[i]).name != (
        #[trigger] tools[j]).name
}

/// What [`tool_index`] finds: the name itself, with no equal name before it.
pub proof fn lemma_tool_index(tools: Seq<EntryView>, name: NameView, from: int)
    requires
        0 <= from <= tools.len(),
    ensures
        from <= tool_index(tools, name, from) <= tools.len(),
        tool_index(tools, name, from) < tools.len() ==> tools[tool_index(tools, name, from)].name
            == name,
        forall|j: int|
            from <= j < tool_index(tools, name, from) ==> (#[trigger] tools[j]).name != name,
    decreases tools.len() - from,
{
    if from < tools.len() && tools[from].name != name {
        lemma_tool_index(tools, name, from + 1);
    }
}

/// A position that holds the name, with no equal name before it, is the one
/// that [`tool_index`] finds.
pub proof fn lemma_tool_index_is(tools: Seq<EntryView>, name: NameView, at: int)
    requires
        0 <= at <= tools.len(),
        at < tools.len() ==> tools[at].name == name,
        forall|j: int| 0 <= j < at ==> (#[trigger] tools[j]).name != name,
    ensures
        tool_index(tools, name, 0) == at,
{
    lemma_tool_index(tools, name, 0);
    let p = tool_index(tools, name, 0);
    if p < at {
        assert(tools[p].name == name);
    }
}

/// A tool that was put into the inventory is found there, and every other tool
/// is found as before.
pub proof fn law_inventory_put(tools: Seq<EntryView>, entry: EntryView, other: NameView)
    ensures
        tool_get(tool_put(tools, entry), entry.name) == Some(entry),
        other != entry.name ==> tool_get(tool_put(tools, entry), other) == tool_get(tools, other),
        names_distinct(tools) ==> names_distinct(tool_put(tools, entry)),
{
    lemma_tool_index(tools, entry.name, 0);
    lemma_tool_index(tools, other, 0);
    let at = tool_index(tools, entry.name, 0);
    let there = tool_index(tools, other, 0);
    let after = tool_put(tools, entry);
    assert forall|j: int| 0 <= j < at implies (#[trigger] after[j]).name != entry.name by {
        assert(after[j] == tools[j]);
    }
    lemma_tool_index_is(after, entry.name, at);
    if other != entry.name {
        let found = if there < tools.len() {
            there
        } else {
            after.len() as int
        };
        assert forall|j: int| 0 <= j < found implies (#[trigger] after[j]).name != other by {
            if j != at {
                assert(after[j] == tools[j]);
            }
        }
        lemma_tool_index_is(after, other, found);
    }
    if names_distinct(tools) {
        assert forall|i: int, j: int|
            0 <= i < after.len() && 0 <= j < after.len() && i != j implies (#[trigger] after[i]).name
            != (#[trigger] after[j]).name by {
            if i != at {
                assert(after[i] == tools[i]);
            }
            if j != at {
                assert(after[j] == tools[j]);
            }
        }
    }
}

/// After a server's tools were cleared, none of them is found, and every tool
/// of another server is found as before.
pub proof fn law_inventory_clear(tools: Seq<EntryView>, server: Seq<char>, name: NameView)
    requires
        names_distinct(tools),
    ensures
        name.0 == server ==> tool_get(without_server(tools, server), name) is None,
        name.0 != server ==> tool_get(without_server(tools, server), name) == tool_get(tools, name),
        names_distinct(without_server(tools, server)),
    decreases tools.len(),
{
    let after = without_server(tools, server);
    lemma_tool_index(tools, name, 0);
    lemma_tool_index(after, name, 0);
    if tools.len() > 0 {
        let rest = tools.drop_last();
        let last = tools.last();
        assert forall|i: int, j: int|
            0 <= i < rest.len() && 0 <= j < rest.len() && i != j implies (#[trigger] rest[i]).name
            != (#[trigger] rest[j]).name by {
            assert(tools[i].name != tools[j].name);
        }
        law_inventory_clear(rest, server, name);
        lemma_tool_index(rest, name, 0);
        let inner = without_server(rest, server);
        lemma_tool_index(inner, name, 0);
        let k = tool_index(rest, name, 0);
        assert(tool_get(tools, name) == (if last.name == name {
            Some(last)
        } else {
            tool_get(rest, name)
        })) by {
            if k < rest.len() {
                assert(rest[k] == tools[k]);
                assert(tools[k].name != tools[tools.len() - 1].name);
                assert forall|j: int| 0 <= j < k implies (#[trigger] tools[j]).name != name by {
                    assert(rest[j] == tools[j]);
                }
                lemma_tool_index_is(tools, name, k);
            } else {
                assert forall|j: int| 0 <= j < rest.len() implies (#[trigger] tools[j]).name
                    != name by {
                    assert(rest[j] == tools[j]);
                }
                if last.name == name {
                    lemma_tool_index_is(tools, name, tools.len() - 1);
                } else {
                    lemma_tool_index_is(tools, name, tools.len() as int);
                }
            }
        }
        if last.name.0 != server {
            assert(tool_get(inner, last.name) is None) by {
                law_inventory_clear(rest, server, last.name);
                lemma_tool_index(rest, last.name, 0);
                let p = tool_index(rest, last.name, 0);
                if p < rest.len() {
                    assert(tools[p].name == tools[tools.len() - 1].name);
                }
            }
            lemma_tool_index(inner, last.name, 0);
            assert(after == inner.push(last));
            assert forall|j: int| 0 <= j < inner.len() implies (#[trigger] inner[j]).name
                != last.name by {}
            let m = tool_index(inner, name, 0);
            assert forall|j: int| 0 <= j < m implies (#[trigger] after[j]).name != name by {
                assert(after[j] == inner[j]);
            }
            if m < inner.len() {
                assert(after[m] == inner[m]);
                lemma_tool_index_is(after, name, m);
            } else if last.name == name {
                lemma_tool_index_is(after, name, inner.len() as int);
            } else {
                lemma_tool_index_is(after, name, after.len() as int);
            }
            assert forall|i: int, j: int|
                0 <= i < after.len() && 0 <= j < after.len() && i != j implies (
            #[trigger] after[i]).name != (#[trigger] after[j]).name by {
                if i < inner.len() {
                    assert(after[i] == inner[i]);
                }
                if j < inner.len() {
                    assert(after[j] == inner[j]);
                }
            }
        }
    }
}

impl ToolInventory {
    /// Whether no qualified name comes twice.
    pub open spec fn wf(self) -> bool {
        names_distinct(self@.tools)
    }

    /// An inventory that holds nothing.
    pub fn new() -> (r: ToolInventory)
        ensures
            r.wf(),
            r@ == empty_inventory(),
    {
        let r = ToolInventory {
            tools: Vec::new(),
            aliases: Vec::new(),
            prompts: Vec::new(),
            resources: Vec::new(),
        };
        assert(r@.tools =~= Seq::<EntryView>::empty());
        assert(r@.aliases =~= Seq::<(Seq<char>, NameView)>::empty());
        assert(r@.prompts =~= Seq::<OfferView>::empty());
        assert(r@.resources =~= Seq::<OfferView>::empty());
        r
    }

    /// Puts in the prompts that a server offers. A prompt takes the place of one
    /// of the same name.
    pub fn insert_prompts(&mut self, server_key: &str, offered: &Vec<Offer>)
        requires
            old(self).wf(),
        ensures
            final(self).wf(),
            final(self)@ == (InventoryView {
                prompts: with_offers(old(self)@.prompts, server_key@, offer_views(offered@)),
                ..old(self)@
            }),
    {
        put_offers(&mut self.prompts, server_key, offered);
    }

    /// Puts in the resources that a server offers. A resource takes the place of
    /// one with the same address.
    pub fn insert_resources(&mut self, server_key: &str, offered: &Vec<Offer>)
        requires
            old(self).wf(),
        ensures
            final(self).wf(),
            final(self)@ == (InventoryView {
                resources: with_offers(old(self)@.resources, server_key@, offer_views(offered@)),
                ..old(self)@
            }),
    {
        put_offers(&mut self.resources, server_key, offered);
    }

    /// The position of a tool; the number of tools where it is not there.
    fn find(&self, server_key: &str, tool_name: &str) -> (at: usize)
        ensures
            at == tool_index(self@.tools, (server_key@, tool_name@), 0),
            at <= self.tools@.len(),
    {
        let mut at: usize = 0;
        while at < self.tools.len() && !(text_eq(self.tools[at].server_key(), server_key)
            && text_eq(self.tools[at].tool_name(), tool_name))
            invariant
                at <= self.tools@.len(),
                tool_index(self@.tools, (server_key@, tool_name@), 0) == tool_index(
                    self@.tools,
                    (server_key@, tool_name@),
                    at as int,
                ),
            ensures
                at <= self.tools@.len(),
                at == tool_index(self@.tools, (server_key@, tool_name@), 0),
            decreases self.tools@.len() - at,
        {
            assert(self@.tools[at as int] == self.tools@[at as int]@);
            at += 1;
        }
        at
    }

    /// The tool with the given name.
    pub fn get_entry(&self, server_key: &str, tool_name: &str) -> (r: Option<ToolEntry>)
        ensures
            match r {
                Some(e) => tool_get(self@.tools, (server_key@, tool_name@)) == Some(e@),
                None => tool_get(self@.tools, (server_key@, tool_name@)) is None,
            },
    {
        let at = self.find(server_key, tool_name);
        if at < self.tools.len() {
            Some(self.tools[at].clone())
        } else {
            None
        }
    }

    /// Whether there is a tool with the given name.
    pub fn has_tool_qualified(&self, server_key: &str, tool_name: &str) -> (r: bool)
        ensures
            r == (tool_get(self@.tools, (server_key@, tool_name@)) is Some),
    {
        self.find(server_key, tool_name) < self.tools.len()
    }

    /// Puts a tool in, in place of the one with its name.
    pub fn insert_entry(&mut self, entry: ToolEntry)
        requires
            old(self).wf(),
        ensures
            final(self).wf(),
            final(self)@ == (InventoryView {
                tools: tool_put(old(self)@.tools, entry@),
                ..old(self)@
            }),
    {
        let ghost before = self@.tools;
        let at = self.find(entry.server_key(), entry.tool_name());
        proof {
            law_inventory_put(before, entry@, entry@.name);
        }
        let ghost view = entry@;
        if at < self.tools.len() {
            self.tools.set(at, entry);
            assert(self@.tools =~= before.update(at as int, view));
        } else {
            self.tools.push(entry);
            assert(self@.tools =~= before.push(view));
        }
    }

    /// Gives a tool another response format; tells whether the tool is there.
    pub fn set_response_format(
        &mut self,
        server_key: &str,
        tool_name: &str,
        response_format: ResponseFormat,
    ) -> (found: bool)
        requires
            old(self).wf(),
        ensures
            final(self).wf(),
            found == (tool_get(old(self)@.tools, (server_key@, tool_name@)) is Some),
            final(self)@ == (InventoryView {
                tools: formatted(old(self)@.tools, (server_key@, tool_name@), response_format),
                ..old(self)@
            }),
    {
        match self.get_entry(server_key, tool_name) {
            Some(entry) => {
                proof {
                    lemma_tool_index(self@.tools, (server_key@, tool_name@), 0);
                }
                self.insert_entry(entry.with_response_format(response_format));
                true
            },
            None => false,
        }
    }

    /// Takes out the tools of one server.
    pub fn clear_server_tools(&mut self, server_key: &str)
        requires
            old(self).wf(),
        ensures
            final(self).wf(),
            final(self)@ == (InventoryView {
                tools: without_server(old(self)@.tools, server_key@),
                ..old(self)@
            }),
    {
        let ghost before = self@.tools;
        proof {
            law_inventory_clear(before, server_key@, (server_key@, server_key@));
        }
        let mut kept: Vec<ToolEntry> = Vec::new();
        assert(tool_views(kept@) =~= without_server(before.take(0), server_key@));
        for i in 0..self.tools.len()
            invariant
                before == tool_views(self.tools@),
                tool_views(kept@) == without_server(before.take(i as int), server_key@),
        {
            let ghost so_far = tool_views(kept@);
            proof {
                let next = before.take(i + 1);
                assert(next.drop_last() =~= before.take(i as int));
                assert(next.last() == self.tools@[i as int]@);
            }
            if !text_eq(self.tools[i].server_key(), server_key) {
                kept.push(self.tools[i].clone());
                assert(tool_views(kept@) =~= so_far.push(self.tools@[i as int]@));
            }
        }
        assert(before.take(self.tools@.len() as int) =~= before);
        self.tools = kept;
    }

    /// Puts in all tools that a server offers.
    pub fn insert_server_tools(
        &mut self,
        server_key: &str,
        offered: &Vec<Tool>,
        category: ToolCategory,
    )
        requires
            old(self).wf(),
        ensures
            final(self).wf(),
            final(self)@ == (InventoryView {
                tools: with_server_tools(
                    old(self)@.tools,
                    server_key@,
                    offered_views(offered@),
                    category,
                ),
                ..old(self)@
            }),
    {
        let ghost before = self@;
        let ghost list = offered_views(offered@);
        for i in 0..offered.len()
            invariant
                self.wf(),
                list == offered_views(offered@),
                self@ == (InventoryView {
                    tools: with_server_tools(
                        before.tools,
                        server_key@,
                        list.take(i as int),
                        category,
                    ),
                    ..before
                }),
        {
            let entry = ToolEntry::from_server_tool(server_key, offered[i].clone()).with_category(
                category,
            );
            self.insert_entry(entry);
            proof {
                let next = list.take(i + 1);
                assert(next.drop_last() =~= list.take(i as int));
                assert(next.last() == offered@[i as int]@);
            }
        }
        assert(list.take(offered@.len() as int) =~= list);
    }

    /// A copy of all tools.
    pub fn entries(&self) -> (r: Vec<ToolEntry>)
        ensures
            tool_views(r@) == self@.tools,
    {
        let mut r: Vec<ToolEntry> = Vec::new();
        for i in 0..self.tools.len()
            invariant
                r@.len() == i,
                forall|j: int| 0 <= j < i ==> (#[trigger] r@[j])@ == self.tools@[j]@,
        {
            r.push(self.tools[i].clone());
        }
        assert(tool_views(r@) =~= self@.tools);
        r
    }

    /// A copy of the tools of the given servers.
    pub fn entries_of(&self, server_keys: &Vec<String>) -> (r: Vec<ToolEntry>)
        ensures
            tool_views(r@) == of_servers(self@.tools, views(server_keys@)),
    {
        let mut r: Vec<ToolEntry> = Vec::new();
        assert(tool_views(r@) =~= of_servers(self@.tools.take(0), views(server_keys@)));
        for i in 0..self.tools.len()
            invariant
                tool_views(r@) == of_servers(self@.tools.take(i as int), views(server_keys@)),
        {
            let ghost so_far = tool_views(r@);
            proof {
                let next = self@.tools.take(i + 1);
                assert(next.drop_last() =~= self@.tools.take(i as int));
                assert(next.last() == self.tools@[i as int]@);
            }
            if list_contains(server_keys, self.tools[i].server_key()) {
                r.push(self.tools[i].clone());
                assert(tool_views(r@) =~= so_far.push(self.tools@[i as int]@));
            }
        }
        assert(self@.tools.take(self.tools@.len() as int) =~= self@.tools);
        r
    }

    /// Lets an alias name stand for a tool. A later registration of the name
    /// comes before an earlier one.
    pub fn register_alias(&mut self, alias: &str, target: QualifiedToolName)
        requires
            old(self).wf(),
        ensures
            final(self).wf(),
            final(self)@ == (InventoryView {
                aliases: seq![(alias@, target@)] + old(self)@.aliases,
                ..old(self)@
            }),
    {
        let ghost before = self@.aliases;
        let ghost view = (alias@, target@);
        self.aliases.insert(0, (alias.to_owned(), target));
        assert(self@.aliases =~= seq![view] + before);
    }

    /// The tool that an alias name stands for.
    pub fn resolve_alias(&self, alias: &str) -> (r: Option<QualifiedToolName>)
        ensures
            match r {
                Some(t) => alias_get(self@.aliases, alias@, 0) == Some(t@),
                None => alias_get(self@.aliases, alias@, 0) is None,
            },
    {
        let mut at: usize = 0;
        while at < self.aliases.len()
            invariant
                at <= self.aliases@.len(),
                alias_get(self@.aliases, alias@, 0) == alias_get(self@.aliases, alias@, at as int),
            decreases self.aliases@.len() - at,
        {
            assert(self@.aliases[at as int] == (
                self.aliases@[at as int].0@,
                self.aliases@[at as int].1@,
            ));
            if text_eq(self.aliases[at].0.as_str(), alias) {
                return Some(self.aliases[at].1.clone());
            }
            at += 1;
        }
        None
    }

    /// Takes everything out.
    pub fn clear_all(&mut self)
        ensures
            final(self).wf(),
            final(self)@ == empty_inventory(),
    {
        *self = ToolInventory::new();
    }

    /// The numbers of tools, prompts and resources.
    pub fn counts(&self) -> (n: (usize, usize, usize))
        ensures
            n.0 == self@.tools.len(),
            n.1 == self@.prompts.len(),
            n.2 == self@.resources.len(),
    {
        (self.tools.len(), self.prompts.len(), self.resources.len())
    }
}

/// The tool that an alias name stands for: the first one listed from `from` on.
pub open spec fn alias_get(
    aliases: Seq<(Seq<char>, NameView)>,
    alias: Seq<char>,
    from: int,
) -> Option<NameView>
    decreases aliases.len() - from,
{
    if from >= aliases.len() {
        None
    } else if aliases[from].0 == alias {
        Some(aliases[from].1)
    } else {
        alias_get(aliases, alias, from + 1)
    }
}

/// The views of the tools that a server offers.
pub open spec fn offered_views(list: Seq<Tool>) -> Seq<ToolView> {
    Seq::new(list.len(), |i: int| list[i]@)
}

/// The tools, with one of them in another response format.
pub open spec fn formatted(
    tools: Seq<EntryView>,
    name: NameView,
    response_format: ResponseFormat,
) -> Seq<EntryView> {
    match tool_get(tools, name) {
        Some(e) => tool_put(tools, EntryView { response_format, ..e }),
        None => tools,
    }
}

} // verus!

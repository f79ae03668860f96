//! The message model of the protocol: plain data and the mathematical values
//! that contracts speak of.

use vstd::prelude::*;
use crate::text::same_text;

verus! {

/// Identifier that ties a response to the request it answers.
pub type RequestId = String;

/// Support for the `tools` feature and its sub-flags.
#[derive(Debug, Clone, Copy, PartialEq, Eq, Structural)]
pub struct ToolsCapability {
    pub list_changed: Option<bool>,
}

/// Support for the `resources` feature and its sub-flags.
#[derive(Debug, Clone, Copy, PartialEq, Eq, Structural)]
pub struct ResourcesCapability {
    pub subscribe: Option<bool>,
    pub list_changed: Option<bool>,
}

/// What the client declares it implements.
#[derive(Debug, Clone, Copy, PartialEq, Eq, Structural)]
pub struct ClientCapabilities {
    pub tools: Option<ToolsCapability>,
}

/// What the server declares it implements. Stored, never enforced.
#[derive(Debug, Clone, Copy, PartialEq, Eq, Structural)]
pub struct ServerCapabilities {
    pub tools: Option<ToolsCapability>,
    pub resources: Option<ResourcesCapability>,
}

/// Name and version of one side of the handshake, as mathematical text.
pub struct PeerInfoView {
    pub name: Seq<char>,
    pub version: Seq<char>,
}

/// Name and version the client announces.
#[derive(Debug)]
pub struct ClientInfo {
    pub name: String,
    pub version: String,
}

impl View for ClientInfo {
    type V = PeerInfoView;

    open spec fn view(&self) -> PeerInfoView {
        PeerInfoView { name: self.name@, version: self.version@ }
    }
}

impl Clone for ClientInfo {
    fn clone(&self) -> (copy: Self)
        ensures
            copy@ == self@,
    {
        ClientInfo { name: self.name.clone(), version: self.version.clone() }
    }
}

/// Name and version the server announces.
#[derive(Debug)]
pub struct ServerInfo {
    pub name: String,
    pub version: String,
}

impl View for ServerInfo {
    type V = PeerInfoView;

    open spec fn view(&self) -> PeerInfoView {
        PeerInfoView { name: self.name@, version: self.version@ }
    }
}

impl Clone for ServerInfo {
    fn clone(&self) -> (copy: Self)
        ensures
            copy@ == self@,
    {
        ServerInfo { name: self.name.clone(), version: self.version.clone() }
    }
}

/// Mathematical value of [`InitializeParams`].
pub struct InitializeParamsView {
    pub protocol_version: Seq<char>,
    pub capabilities: ClientCapabilities,
    pub client_info: PeerInfoView,
}

/// Payload of the handshake request.
#[derive(Debug)]
pub struct InitializeParams {
    pub protocol_version: String,
    pub capabilities: ClientCapabilities,
    pub client_info: ClientInfo,
}

impl View for InitializeParams {
    type V = InitializeParamsView;

    open spec fn view(&self) -> InitializeParamsView {
        InitializeParamsView {
            protocol_version: self.protocol_version@,
            capabilities: self.capabilities,
            client_info: self.client_info@,
        }
    }
}

impl Clone for InitializeParams {
    fn clone(&self) -> (copy: Self)
        ensures
            copy@ == self@,
    {
        InitializeParams {
            protocol_version: self.protocol_version.clone(),
            capabilities: self.capabilities,
            client_info: self.client_info.clone(),
        }
    }
}

impl Default for InitializeParams {
    /// The handshake payload of a client called `ai-cli`, of version `0.1.0`.
    fn default() -> (params: Self)
        ensures
            params@ == (InitializeParamsView {
                protocol_version: "2024-11-05"@,
                capabilities: ClientCapabilities {
                    tools: Some(ToolsCapability { list_changed: Some(true) }),
                },
                client_info: PeerInfoView { name: "ai-cli"@, version: "0.1.0"@ },
            }),
    {
        InitializeParams {
            protocol_version: String::from_str("2024-11-05"),
            capabilities: ClientCapabilities {
                tools: Some(ToolsCapability { list_changed: Some(true) }),
            },
            client_info: ClientInfo {
                name: String::from_str("ai-cli"),
                version: String::from_str("0.1.0"),
            },
        }
    }
}

/// Mathematical value of [`InitializeResult`].
pub struct InitializeResultView {
    pub protocol_version: Seq<char>,
    pub capabilities: ServerCapabilities,
    pub server_info: PeerInfoView,
}

/// Payload of the handshake result.
#[derive(Debug)]
pub struct InitializeResult {
    pub protocol_version: String,
    pub capabilities: ServerCapabilities,
    pub server_info: ServerInfo,
}

impl View for InitializeResult {
    type V = InitializeResultView;

    open spec fn view(&self) -> InitializeResultView {
        InitializeResultView {
            protocol_version: self.protocol_version@,
            capabilities: self.capabilities,
            server_info: self.server_info@,
        }
    }
}

impl Clone for InitializeResult {
    fn clone(&self) -> (copy: Self)
        ensures
            copy@ == self@,
    {
        InitializeResult {
            protocol_version: self.protocol_version.clone(),
            capabilities: self.capabilities,
            server_info: self.server_info.clone(),
        }
    }
}

/// Payload of the discovery request.
#[derive(Debug)]
pub struct ToolsListParams {
    pub cursor: Option<String>,
}

impl View for ToolsListParams {
    type V = Option<Seq<char>>;

    open spec fn view(&self) -> Option<Seq<char>> {
        match self.cursor {
            Some(c) => Some(c@),
            None => None,
        }
    }
}

impl Clone for ToolsListParams {
    fn clone(&self) -> (copy: Self)
        ensures
            copy@ == self@,
    {
        let cursor = match &self.cursor {
            Some(c) => Some(c.clone()),
            None => None,
        };
        ToolsListParams { cursor }
    }
}

/// Copies a list of strings element by element.
pub fn clone_strings(items: &Vec<String>) -> (copy: Vec<String>)
    ensures
        copy.deep_view() == items.deep_view(),
{
    let mut copy: Vec<String> = Vec::new();
    let mut i: usize = 0;
    while i < items.len()
        invariant
            i <= items.len(),
            copy.len() == i,
            forall|k: int| 0 <= k < i ==> copy[k]@ == items[k]@,
        decreases items.len() - i,
    {
        copy.push(items[i].clone());
        i += 1;
    }
    assert(copy.deep_view() =~= items.deep_view());
    copy
}

/// Mathematical value of a [`ToolProperty`].
pub struct ToolPropertyView {
    pub property_type: Seq<char>,
    pub description: Seq<char>,
    pub enum_values: Option<Seq<Seq<char>>>,
}

/// One property of a tool's input: its type, a description and, where the
/// property is an enumeration, the values it admits.
#[derive(Debug)]
pub struct ToolProperty {
    pub property_type: String,
    pub description: String,
    pub enum_values: Option<Vec<String>>,
}

impl View for ToolProperty {
    type V = ToolPropertyView;

    open spec fn view(&self) -> ToolPropertyView {
        ToolPropertyView {
            property_type: self.property_type@,
            description: self.description@,
            enum_values: match self.enum_values {
                Some(v) => Some(v.deep_view()),
                None => None,
            },
        }
    }
}

impl Clone for ToolProperty {
    fn clone(&self) -> (copy: Self)
        ensures
            copy@ == self@,
    {
        let enum_values = match &self.enum_values {
            Some(v) => Some(clone_strings(v)),
            None => None,
        };
        ToolProperty {
            property_type: self.property_type.clone(),
            description: self.description.clone(),
            enum_values,
        }
    }
}

/// A property together with the name it is declared under.
#[derive(Debug)]
pub struct NamedProperty {
    pub name: String,
    pub property: ToolProperty,
}

impl View for NamedProperty {
    type V = (Seq<char>, ToolPropertyView);

    open spec fn view(&self) -> (Seq<char>, ToolPropertyView) {
        (self.name@, self.property@)
    }
}

impl Clone for NamedProperty {
    fn clone(&self) -> (copy: Self)
        ensures
            copy@ == self@,
    {
        NamedProperty { name: self.name.clone(), property: self.property.clone() }
    }
}

/// The views of a list of named properties, in order.
pub open spec fn properties_view(properties: Seq<NamedProperty>) -> Seq<(Seq<char>, ToolPropertyView)> {
    Seq::new(properties.len(), |i: int| properties[i]@)
}

/// Mathematical value of a [`ToolInputSchema`].
pub struct ToolInputSchemaView {
    pub schema_type: Seq<char>,
    pub properties: Seq<(Seq<char>, ToolPropertyView)>,
    pub required: Seq<Seq<char>>,
}

/// Shape of the arguments a tool accepts.
#[derive(Debug)]
pub struct ToolInputSchema {
    pub schema_type: String,
    pub properties: Vec<NamedProperty>,
    pub required: Vec<String>,
}

impl View for ToolInputSchema {
    type V = ToolInputSchemaView;

    open spec fn view(&self) -> ToolInputSchemaView {
        ToolInputSchemaView {
            schema_type: self.schema_type@,
            properties: properties_view(self.properties@),
            required: self.required.deep_view(),
        }
    }
}

impl ToolInputSchemaView {
    /// No property name is declared twice.
    pub open spec fn well_formed(self) -> bool {
        forall|i: int, j: int|
            0 <= i < j < self.properties.len() ==> self.properties[i].0 != self.properties[j].0
    }

    /// Where the property called `name` is declared first, or the number of
    /// properties where it is not declared.
    pub open spec fn index_of(self, name: Seq<char>) -> int
        decreases self.properties.len(),
    {
        if self.properties.len() == 0 {
            0
        } else if self.properties[0].0 == name {
            0
        } else {
            1 + (ToolInputSchemaView {
                properties: self.properties.drop_first(),
                ..self
            }).index_of(name)
        }
    }

    /// The property called `name`, as it is declared first.
    pub open spec fn property(self, name: Seq<char>) -> Option<ToolPropertyView> {
        if 0 <= self.index_of(name) < self.properties.len() {
            Some(self.properties[self.index_of(name)].1)
        } else {
            None
        }
    }

    /// Whether the caller must give the property called `name`.
    pub open spec fn requires_property(self, name: Seq<char>) -> bool {
        self.required.contains(name)
    }
}

/// A run of properties of other names, followed by the property called
/// `name` or by the end of the list, ends where `name` is declared first.
pub proof fn lemma_index_of_is(schema: ToolInputSchemaView, name: Seq<char>, n: int)
    requires
        0 <= n <= schema.properties.len(),
        forall|k: int| 0 <= k < n ==> schema.properties[k].0 != name,
        n < schema.properties.len() ==> schema.properties[n].0 == name,
    ensures
        schema.index_of(name) == n,
    decreases n,
{
    if n > 0 {
        let rest = ToolInputSchemaView { properties: schema.properties.drop_first(), ..schema };
        assert forall|k: int| 0 <= k < n - 1 implies rest.properties[k].0 != name by {
            assert(rest.properties[k] == schema.properties[k + 1]);
        }
        if n - 1 < rest.properties.len() {
            assert(rest.properties[n - 1] == schema.properties[n]);
        }
        lemma_index_of_is(rest, name, n - 1);
    }
}

impl ToolInputSchema {
    /// The property called `name`, as it is declared first, if it is
    /// declared.
    pub fn property(&self, name: &str) -> (found: Option<&ToolProperty>)
        ensures
            match self@.property(name@) {
                Some(expected) => found matches Some(p) && p@ == expected,
                None => found is None,
            },
    {
        let mut i: usize = 0;
        while i < self.properties.len()
            invariant
                i <= self.properties.len(),
                forall|k: int| 0 <= k < i ==> self@.properties[k].0 != name@,
            decreases self.properties.len() - i,
        {
            assert(self@.properties[i as int] == self.properties[i as int]@);
            if same_text(self.properties[i].name.as_str(), name) {
                proof {
                    lemma_index_of_is(self@, name@, i as int);
                }
                return Some(&self.properties[i].property);
            }
            i += 1;
        }
        proof {
            lemma_index_of_is(self@, name@, i as int);
        }
        None
    }

    /// Whether the caller must give the property called `name`.
    pub fn requires_property(&self, name: &str) -> (required: bool)
        ensures
            required == self@.requires_property(name@),
    {
        let mut i: usize = 0;
        while i < self.required.len()
            invariant
                i <= self.required.len(),
                forall|k: int| 0 <= k < i ==> self@.required[k] != name@,
            decreases self.required.len() - i,
        {
            assert(self@.required[i as int] == self.required[i as int]@);
            if same_text(self.required[i].as_str(), name) {
                return true;
            }
            i += 1;
        }
        false
    }
}

impl Clone for ToolInputSchema {
    fn clone(&self) -> (copy: Self)
        ensures
            copy@ == self@,
    {
        let mut properties: Vec<NamedProperty> = Vec::new();
        let mut i: usize = 0;
        while i < self.properties.len()
            invariant
                i <= self.properties.len(),
                properties.len() == i,
                forall|k: int| 0 <= k < i ==> properties[k]@ == self.properties[k]@,
            decreases self.properties.len() - i,
        {
            properties.push(self.properties[i].clone());
            i += 1;
        }
        assert(properties_view(properties@) =~= properties_view(self.properties@));
        ToolInputSchema {
            schema_type: self.schema_type.clone(),
            properties,
            required: clone_strings(&self.required),
        }
    }
}

/// Mathematical value of a [`Tool`].
pub struct ToolView {
    pub name: Seq<char>,
    pub description: Seq<char>,
    pub input_schema: ToolInputSchemaView,
}

/// A callable operation that a tool provider exposes.
#[derive(Debug)]
pub struct Tool {
    pub name: String,
    pub description: String,
    pub input_schema: ToolInputSchema,
}

impl View for Tool {
    type V = ToolView;

    open spec fn view(&self) -> ToolView {
        ToolView {
            name: self.name@,
            description: self.description@,
            input_schema: self.input_schema@,
        }
    }
}

impl Clone for Tool {
    fn clone(&self) -> (copy: Self)
        ensures
            copy@ == self@,
    {
        Tool {
            name: self.name.clone(),
            description: self.description.clone(),
            input_schema: self.input_schema.clone(),
        }
    }
}

/// The views of a list of tools, in order.
pub open spec fn tools_view(tools: Seq<Tool>) -> Seq<ToolView> {
    Seq::new(tools.len(), |i: int| tools[i]@)
}

/// Payload of the discovery result.
#[derive(Debug)]
pub struct ToolsListResult {
    pub tools: Vec<Tool>,
}

impl View for ToolsListResult {
    type V = Seq<ToolView>;

    open spec fn view(&self) -> Seq<ToolView> {
        tools_view(self.tools@)
    }
}

/// Copies a list of tools element by element.
pub fn clone_tools(tools: &Vec<Tool>) -> (copy: Vec<Tool>)
    ensures
        tools_view(copy@) == tools_view(tools@),
{
    let mut copy: Vec<Tool> = Vec::new();
    let mut i: usize = 0;
    while i < tools.len()
        invariant
            i <= tools.len(),
            copy.len() == i,
            forall|k: int| 0 <= k < i ==> copy[k]@ == tools[k]@,
        decreases tools.len() - i,
    {
        copy.push(tools[i].clone());
        i += 1;
    }
    assert(tools_view(copy@) =~= tools_view(tools@));
    copy
}

impl Clone for ToolsListResult {
    fn clone(&self) -> (copy: Self)
        ensures
            copy@ == self@,
    {
        ToolsListResult { tools: clone_tools(&self.tools) }
    }
}

/// Mathematical value of a [`Content`] item.
#[allow(inconsistent_fields)]
pub enum ContentView {
    Text { text: Seq<char> },
    Image { data: Seq<char>, mime_type: Seq<char> },
    Resource {
        uri: Seq<char>,
        mime_type: Option<Seq<char>>,
        text: Option<Seq<char>>,
        blob: Option<Seq<char>>,
    },
}

/// The text of an optional string.
pub open spec fn optional_text(s: Option<String>) -> Option<Seq<char>> {
    match s {
        Some(t) => Some(t@),
        None => None,
    }
}

/// Copies an optional string.
pub fn clone_optional_text(s: &Option<String>) -> (copy: Option<String>)
    ensures
        optional_text(copy) == optional_text(*s),
{
    match s {
        Some(t) => Some(t.clone()),
        None => None,
    }
}

/// A payload that a tool-call result can carry.
#[derive(Debug)]
#[allow(inconsistent_fields)]
pub enum Content {
    /// Plain text.
    Text { text: String },
    /// An image: base64 payload and its mime type.
    Image { data: String, mime_type: String },
    /// A resource: its URI and, optionally, mime type, text or binary payload.
    Resource { uri: String, mime_type: Option<String>, text: Option<String>, blob: Option<String> },
}

impl View for Content {
    type V = ContentView;

    open spec fn view(&self) -> ContentView {
        match *self {
            Content::Text { text } => ContentView::Text { text: text@ },
            Content::Image { data, mime_type } => ContentView::Image {
                data: data@,
                mime_type: mime_type@,
            },
            Content::Resource { uri, mime_type, text, blob } => ContentView::Resource {
                uri: uri@,
                mime_type: optional_text(mime_type),
                text: optional_text(text),
                blob: optional_text(blob),
            },
        }
    }
}

impl Clone for Content {
    fn clone(&self) -> (copy: Self)
        ensures
            copy@ == self@,
    {
        match self {
            Content::Text { text } => Content::Text { text: text.clone() },
            Content::Image { data, mime_type } => Content::Image {
                data: data.clone(),
                mime_type: mime_type.clone(),
            },
            Content::Resource { uri, mime_type, text, blob } => Content::Resource {
                uri: uri.clone(),
                mime_type: clone_optional_text(mime_type),
                text: clone_optional_text(text),
                blob: clone_optional_text(blob),
            },
        }
    }
}

/// The views of a list of content items, in order.
pub open spec fn contents_view(items: Seq<Content>) -> Seq<ContentView> {
    Seq::new(items.len(), |i: int| items[i]@)
}

/// Mathematical value of a [`CallToolResult`].
pub struct CallToolResultView {
    pub content: Seq<ContentView>,
    pub is_error: Option<bool>,
}

impl CallToolResultView {
    /// Whether the server reported that the tool itself failed. An absent
    /// flag counts as success.
    pub open spec fn reports_failure(self) -> bool {
        self.is_error == Some(true)
    }
}

/// What the server answers to a tool call.
#[derive(Debug)]
pub struct CallToolResult {
    pub content: Vec<Content>,
    pub is_error: Option<bool>,
}

impl View for CallToolResult {
    type V = CallToolResultView;

    open spec fn view(&self) -> CallToolResultView {
        CallToolResultView { content: contents_view(self.content@), is_error: self.is_error }
    }
}

impl Clone for CallToolResult {
    fn clone(&self) -> (copy: Self)
        ensures
            copy@ == self@,
    {
        let mut content: Vec<Content> = Vec::new();
        let mut i: usize = 0;
        while i < self.content.len()
            invariant
                i <= self.content.len(),
                content.len() == i,
                forall|k: int| 0 <= k < i ==> content[k]@ == self.content[k]@,
            decreases self.content.len() - i,
        {
            content.push(self.content[i].clone());
            i += 1;
        }
        assert(contents_view(content@) =~= contents_view(self.content@));
        CallToolResult { content, is_error: self.is_error }
    }
}

impl CallToolResult {
    /// Whether the server reported that the tool itself failed.
    pub fn reports_failure(&self) -> (failed: bool)
        ensures
            failed == self@.reports_failure(),
    {
        match self.is_error {
            Some(flag) => flag,
            None => false,
        }
    }
}

} // verus!

//! The client: session lifecycle, the requests it issues, and what each
//! inbound message, timeout or failure does to the session.

use vstd::prelude::*;
use super::correlation::{
    ids_distinct, pending_of, PendingRequest, PendingTable, PendingTableView, RequestKind,
};
use super::error::ClientError;
use super::message::{
    is_generated_id, CallToolParams, MCPMessage, JSONRPC_VERSION, MCP_PROTOCOL_VERSION,
};
use super::protocol::{
    CallToolResult, ClientCapabilities, ClientInfo, InitializeParams, InitializeParamsView,
    InitializeResult, InitializeResultView, PeerInfoView, RequestId, Tool, ToolView,
    ToolsCapability, ToolsListParams,
};
use super::registry::{keyed_by_name, merged, ToolRegistry};
use crate::text::{same_text, starts_with};

verus! {

/// Where a session stands.
#[derive(Debug, Clone, Copy, PartialEq, Eq, Structural)]
pub enum SessionState {
    /// Constructed, nothing sent.
    Uninitialized,
    /// Handshake or discovery under way.
    Initializing,
    /// Handshake and discovery succeeded: tools can be listed and called.
    Ready,
    /// The connection is unusable. A failed session stays failed.
    Failed,
}

/// Why a session cannot be opened at the address `url`, if it cannot: only
/// addresses that begin with `stdio://` name the shipped transport.
pub open spec fn url_fault(url: Seq<char>) -> Option<ClientError> {
    if "stdio://"@.is_prefix_of(url) {
        None
    } else if "http://"@.is_prefix_of(url) || "https://"@.is_prefix_of(url) {
        Some(ClientError::HttpNotImplemented)
    } else {
        Some(ClientError::UnsupportedUrl)
    }
}

/// Says whether the address names the shipped transport, and if not, why.
pub fn check_server_url(url: &str) -> (outcome: Result<(), ClientError>)
    ensures
        outcome == match url_fault(url@) {
            Some(e) => Err::<(), ClientError>(e),
            None => Ok::<(), ClientError>(()),
        },
{
    if starts_with(url, "stdio://") {
        Ok(())
    } else if starts_with(url, "http://") || starts_with(url, "https://") {
        Err(ClientError::HttpNotImplemented)
    } else {
        Err(ClientError::UnsupportedUrl)
    }
}

/// Mathematical value of an [`MCPClient`].
pub struct ClientView {
    pub name: Seq<char>,
    pub version: Seq<char>,
    pub server_url: Seq<char>,
    pub state: SessionState,
    /// The registered tools, by name.
    pub tools: Map<Seq<char>, ToolView>,
    /// Requests in flight and identifiers used up.
    pub pending: PendingTableView,
    /// What the server answered to the handshake, once it has.
    pub server: Option<InitializeResultView>,
}

impl ClientView {
    /// A session that has not connected: no tools, nothing in flight, no
    /// identifier used.
    pub open spec fn fresh(name: Seq<char>, version: Seq<char>, server_url: Seq<char>) -> ClientView {
        ClientView {
            name,
            version,
            server_url,
            state: SessionState::Uninitialized,
            tools: Map::<Seq<char>, ToolView>::empty(),
            pending: PendingTableView {
                pending: Map::<Seq<char>, RequestKind>::empty(),
                retired: Set::<Seq<char>>::empty(),
            },
            server: None::<InitializeResultView>,
        }
    }

    /// What every session satisfies: no identifier is both pending and
    /// retired; every tool stands under its own name; before the handshake
    /// starts nothing is known; a failed session
    /// has nothing in flight; a ready session has the server's answer to the
    /// handshake; an initializing session has no tools yet, and until the
    /// handshake is answered only handshake requests are in flight.
    pub open spec fn wf(self) -> bool {
        &&& self.pending.consistent()
        &&& keyed_by_name(self.tools)
        &&& self.state == SessionState::Uninitialized ==> {
            &&& self.pending.pending == Map::<Seq<char>, RequestKind>::empty()
            &&& self.pending.retired == Set::<Seq<char>>::empty()
            &&& self.tools == Map::<Seq<char>, ToolView>::empty()
            &&& self.server is None
        }
        &&& self.state == SessionState::Failed ==> self.pending.pending == Map::<
            Seq<char>,
            RequestKind,
        >::empty()
        &&& self.state == SessionState::Ready ==> self.server is Some
        &&& self.state == SessionState::Initializing ==> {
            &&& self.tools == Map::<Seq<char>, ToolView>::empty()
            &&& self.server is None ==> forall|id: Seq<char>|
                self.pending.pending.dom().contains(id) ==> #[trigger] self.pending.pending[id]
                    == RequestKind::Initialize
        }
    }

    /// Why the handshake cannot start, if it cannot: a session starts once,
    /// and only at an address that names the shipped transport.
    pub open spec fn start_fault(self) -> Option<ClientError> {
        if self.state != SessionState::Uninitialized {
            Some(ClientError::AlreadyStarted)
        } else {
            url_fault(self.server_url)
        }
    }

    /// The session after the handshake request went out under `id`.
    pub open spec fn started(self, id: Seq<char>) -> ClientView {
        ClientView {
            state: SessionState::Initializing,
            pending: self.pending.submitted(id, RequestKind::Initialize),
            ..self
        }
    }

    /// Whether discovery can be asked for: after the handshake was answered,
    /// or again once the session is ready.
    pub open spec fn can_discover(self) -> bool {
        (self.state == SessionState::Initializing && self.server is Some) || self.state
            == SessionState::Ready
    }

    /// Why a request of kind `kind` cannot go out under `id`, if it cannot.
    /// For a tool call, `name` is the tool.
    pub open spec fn request_fault(self, kind: RequestKind, id: Seq<char>, name: Seq<char>) -> Option<
        ClientError,
    > {
        match kind {
            RequestKind::Initialize => self.start_fault(),
            RequestKind::ToolsList => if !self.can_discover() {
                Some(ClientError::NotInitialized)
            } else if self.pending.knows(id) {
                Some(ClientError::IdentifierReused)
            } else {
                None
            },
            RequestKind::ToolsCall => if self.state != SessionState::Ready {
                Some(ClientError::NotInitialized)
            } else if !self.tools.dom().contains(name) {
                Some(ClientError::ToolNotFound)
            } else if self.pending.knows(id) {
                Some(ClientError::IdentifierReused)
            } else {
                None
            },
        }
    }

    /// The session after a discovery or tool-call request went out under
    /// `id`.
    pub open spec fn requested(self, id: Seq<char>, kind: RequestKind) -> ClientView {
        ClientView { pending: self.pending.submitted(id, kind), ..self }
    }

    /// The session after `message` came in. A message that answers no
    /// pending request changes nothing. The result that a request awaits is
    /// taken in: the handshake result is stored, the discovered tools are
    /// merged into the registry and an initializing session becomes ready, a
    /// tool-call result leaves the session as it is. Any other message under
    /// the identifier of a pending request fails the session and every
    /// request in flight.
    pub open spec fn received(self, message: MCPMessage) -> ClientView {
        let id = message.spec_id();
        match self.pending.awaiting(id) {
            None => self,
            Some(kind) => {
                let pending = self.pending.resolved(id);
                match (kind, message) {
                    (RequestKind::Initialize, MCPMessage::InitializeResult { result, .. }) => {
                        ClientView { pending, server: Some(result@), ..self }
                    },
                    (RequestKind::ToolsList, MCPMessage::ToolsListResult { result, .. }) => {
                        ClientView {
                            pending,
                            tools: merged(self.tools, result@),
                            state: if self.state == SessionState::Initializing {
                                SessionState::Ready
                            } else {
                                self.state
                            },
                            ..self
                        }
                    },
                    (RequestKind::ToolsCall, MCPMessage::ToolsCallResult { .. }) => {
                        ClientView { pending, ..self }
                    },
                    _ => ClientView {
                        pending: pending.all_failed(),
                        state: SessionState::Failed,
                        ..self
                    },
                }
            },
        }
    }

    /// The session after the request under `id` found no answer in time.
    /// Where nothing is pending under `id`, nothing changes. A timeout while
    /// the session initializes fails it; a ready session stays ready, and a
    /// late answer will find nothing pending.
    pub open spec fn timed_out(self, id: Seq<char>) -> ClientView {
        if !self.pending.pending.dom().contains(id) {
            self
        } else if self.state == SessionState::Initializing {
            ClientView {
                pending: self.pending.resolved(id).all_failed(),
                state: SessionState::Failed,
                ..self
            }
        } else {
            ClientView { pending: self.pending.resolved(id), ..self }
        }
    }

    /// The session after the error `cause` was met. Transport and protocol
    /// errors fail a session that has started, and with it every request in
    /// flight; other errors, and any error before the start, change nothing.
    pub open spec fn failed(self, cause: ClientError) -> ClientView {
        if cause.spec_is_fatal() && (self.state == SessionState::Initializing || self.state
            == SessionState::Ready) {
            ClientView { pending: self.pending.all_failed(), state: SessionState::Failed, ..self }
        } else {
            self
        }
    }

    /// The tools a caller can see: those registered, once the session is
    /// ready; none before and none after a failure.
    pub open spec fn visible_tools(self) -> Map<Seq<char>, ToolView> {
        if self.state == SessionState::Ready {
            self.tools
        } else {
            Map::<Seq<char>, ToolView>::empty()
        }
    }
}

/// Whether `message` is the handshake request of a client called `name`, of
/// version `version`, under the identifier `id`: it advertises the supported
/// protocol revision and the one capability the client implements, that the
/// tool list can change.
pub open spec fn is_initialize_request(
    message: MCPMessage,
    id: Seq<char>,
    name: Seq<char>,
    version: Seq<char>,
) -> bool {
    match message {
        MCPMessage::Initialize { jsonrpc, id: carried, params } => {
            &&& jsonrpc@ == "2.0"@
            &&& carried@ == id
            &&& params@ == (InitializeParamsView {
                protocol_version: "2024-11-05"@,
                capabilities: ClientCapabilities {
                    tools: Some(ToolsCapability { list_changed: Some(true) }),
                },
                client_info: PeerInfoView { name, version },
            })
        },
        _ => false,
    }
}

/// Whether `message` is the discovery request under the identifier `id`: it
/// asks for the whole list, from the start.
pub open spec fn is_discovery_request(message: MCPMessage, id: Seq<char>) -> bool {
    match message {
        MCPMessage::ToolsList { jsonrpc, id: carried, params } => {
            &&& jsonrpc@ == "2.0"@
            &&& carried@ == id
            &&& params.cursor is None
        },
        _ => false,
    }
}

/// Whether `message` is the request to call the tool `name` with
/// `arguments`, under the identifier `id`.
pub open spec fn is_call_request(
    message: MCPMessage,
    id: Seq<char>,
    name: Seq<char>,
    arguments: Option<serde_json::Value>,
) -> bool {
    match message {
        MCPMessage::ToolsCall { jsonrpc, id: carried, params } => {
            &&& jsonrpc@ == "2.0"@
            &&& carried@ == id
            &&& params.name@ == name
            &&& params.arguments == arguments
        },
        _ => false,
    }
}

/// What became of an inbound message.
#[derive(Debug)]
pub enum Reply {
    /// No request awaits this message: it is dropped.
    Orphaned,
    /// The handshake was answered. Where `version_matches` is false the
    /// server speaks another protocol revision, which is tolerated.
    Handshaken { version_matches: bool },
    /// Discovery was answered and the tools are registered.
    Discovered,
    /// The tool ran; this is its result.
    ToolSucceeded(CallToolResult),
    /// The tool ran and reported a failure. The session is unharmed.
    ToolFailed(CallToolResult),
    /// The message is not what the request awaited. The session has failed,
    /// and with it the other requests that were in flight: `failed`.
    Rejected { failed: Vec<PendingRequest> },
}

impl ClientView {
    /// Whether `reply` is what the session answers to `message`.
    pub open spec fn replies(self, message: MCPMessage, reply: Reply) -> bool {
        let id = message.spec_id();
        match self.pending.awaiting(id) {
            None => reply is Orphaned,
            Some(kind) => match (kind, message) {
                (RequestKind::Initialize, MCPMessage::InitializeResult { result, .. }) => {
                    reply == (Reply::Handshaken {
                        version_matches: result.protocol_version@ == "2024-11-05"@,
                    })
                },
                (RequestKind::ToolsList, MCPMessage::ToolsListResult { .. }) => {
                    reply is Discovered
                },
                (RequestKind::ToolsCall, MCPMessage::ToolsCallResult { result, .. }) => {
                    if result@.reports_failure() {
                        reply matches Reply::ToolFailed(r) && r@ == result@
                    } else {
                        reply matches Reply::ToolSucceeded(r) && r@ == result@
                    }
                },
                _ => {
                    reply matches Reply::Rejected { failed } && ids_distinct(failed@)
                        && pending_of(failed@) == self.pending.resolved(id).pending
                },
            },
        }
    }
}

/// A client of one tool provider.
pub struct MCPClient {
    name: String,
    version: String,
    server_url: String,
    tools: ToolRegistry,
    state: SessionState,
    pending: PendingTable,
    server: Option<InitializeResult>,
}

impl View for MCPClient {
    type V = ClientView;

    closed spec fn view(&self) -> ClientView {
        ClientView {
            name: self.name@,
            version: self.version@,
            server_url: self.server_url@,
            state: self.state,
            tools: self.tools@,
            pending: self.pending@,
            server: match self.server {
                Some(result) => Some(result@),
                None => None,
            },
        }
    }
}

impl MCPClient {
    /// The representation is sound and the session satisfies
    /// [`ClientView::wf`].
    pub closed spec fn wf(self) -> bool {
        &&& self.tools.wf()
        &&& self.pending.wf()
        &&& self@.wf()
    }

    /// A well-formed client has a well-formed value.
    pub proof fn lemma_view_wf(self)
        requires
            self.wf(),
        ensures
            self@.wf(),
    {
    }

    /// A client that has not connected yet.
    pub fn new(name: String, version: String, server_url: String) -> (client: Self)
        ensures
            client.wf(),
            client@ == ClientView::fresh(name@, version@, server_url@),
    {
        let pending = PendingTable::new();
        proof {
            pending.lemma_consistent();
        }
        let tools = ToolRegistry::new();
        proof {
            tools.lemma_keyed();
        }
        MCPClient {
            name,
            version,
            server_url,
            tools,
            state: SessionState::Uninitialized,
            pending,
            server: None,
        }
    }

    /// The name the client announces.
    pub fn name(&self) -> (name: &String)
        ensures
            name@ == self@.name,
    {
        &self.name
    }

    /// The version the client announces.
    pub fn version(&self) -> (version: &String)
        ensures
            version@ == self@.version,
    {
        &self.version
    }

    /// The address of the tool provider.
    pub fn server_url(&self) -> (url: &String)
        ensures
            url@ == self@.server_url,
    {
        &self.server_url
    }

    /// Where the session stands.
    pub fn state(&self) -> (state: SessionState)
        ensures
            state == self@.state,
    {
        self.state
    }

    /// Whether handshake and discovery have succeeded and the connection has
    /// not failed since.
    pub fn is_initialized(&self) -> (ready: bool)
        ensures
            ready == (self@.state == SessionState::Ready),
    {
        match self.state {
            SessionState::Ready => true,
            _ => false,
        }
    }

    /// What the server answered to the handshake: stored, never enforced.
    pub fn server(&self) -> (server: Option<&InitializeResult>)
        ensures
            match server {
                Some(result) => self@.server == Some(result@),
                None => self@.server is None,
            },
    {
        self.server.as_ref()
    }

    /// The names of the tools that can be called, each once. Outside the
    /// ready state there are none.
    pub fn list_tools(&self) -> (names: Vec<String>)
        requires
            self.wf(),
        ensures
            names.deep_view().no_duplicates(),
            names.deep_view().to_set() == self@.visible_tools().dom(),
    {
        match self.state {
            SessionState::Ready => self.tools.names(),
            _ => {
                let names: Vec<String> = Vec::new();
                assert(names.deep_view() =~= Seq::<Seq<char>>::empty());
                assert(names.deep_view().to_set() =~= Set::<Seq<char>>::empty());
                assert(Map::<Seq<char>, ToolView>::empty().dom() =~= Set::<Seq<char>>::empty());
                names
            },
        }
    }

    /// The tool called `name`, which carries that name, where the session is
    /// ready and such a tool is registered. Nothing is sent and the session
    /// stays as it is.
    pub fn get_tool(&self, name: &str) -> (found: Option<Tool>)
        requires
            self.wf(),
        ensures
            match found {
                Some(tool) => self@.visible_tools().dom().contains(name@) && tool@
                    == self@.visible_tools()[name@] && tool@.name == name@,
                None => !self@.visible_tools().dom().contains(name@),
            },
    {
        match self.state {
            SessionState::Ready => match self.tools.lookup(name) {
                Some(tool) => Some(tool.clone()),
                None => None,
            },
            _ => None,
        }
    }

    /// Starts the handshake under the identifier `id`: the session becomes
    /// initializing and the request to send is handed back. A session that
    /// was started before, or whose address names no shipped transport, is
    /// left as it is.
    pub fn begin_initialize_with(&mut self, id: RequestId) -> (outcome: Result<
        MCPMessage,
        ClientError,
    >)
        requires
            old(self).wf(),
        ensures
            final(self).wf(),
            match old(self)@.start_fault() {
                Some(e) => outcome == Err::<MCPMessage, ClientError>(e) && final(self)@ == old(self)@,
                None => outcome is Ok && is_initialize_request(
                    outcome->Ok_0,
                    id@,
                    old(self)@.name,
                    old(self)@.version,
                ) && final(self)@ == old(self)@.started(id@),
            },
    {
        match self.state {
            SessionState::Uninitialized => {},
            _ => {
                return Err(ClientError::AlreadyStarted);
            },
        }
        match check_server_url(self.server_url.as_str()) {
            Err(e) => {
                return Err(e);
            },
            Ok(_) => {},
        }
        let carried = id.clone();
        let submitted = self.pending.submit(id, RequestKind::Initialize);
        assert(submitted is Ok);
        self.state = SessionState::Initializing;
        proof {
            self.pending.lemma_consistent();
        }
        Ok(
            MCPMessage::Initialize {
                jsonrpc: String::from_str(JSONRPC_VERSION),
                id: carried,
                params: InitializeParams {
                    protocol_version: String::from_str(MCP_PROTOCOL_VERSION),
                    capabilities: ClientCapabilities {
                        tools: Some(ToolsCapability { list_changed: Some(true) }),
                    },
                    client_info: ClientInfo {
                        name: self.name.clone(),
                        version: self.version.clone(),
                    },
                },
            },
        )
    }

    /// Starts the handshake under a newly generated identifier, which the
    /// request that is handed back carries.
    pub fn begin_initialize(&mut self) -> (outcome: Result<MCPMessage, ClientError>)
        requires
            old(self).wf(),
        ensures
            final(self).wf(),
            match old(self)@.start_fault() {
                Some(e) => outcome == Err::<MCPMessage, ClientError>(e) && final(self)@ == old(self)@,
                None => outcome is Ok && is_generated_id(outcome->Ok_0.spec_id())
                    && is_initialize_request(
                    outcome->Ok_0,
                    outcome->Ok_0.spec_id(),
                    old(self)@.name,
                    old(self)@.version,
                ) && final(self)@ == old(self)@.started(outcome->Ok_0.spec_id()),
            },
    {
        let id = MCPMessage::new_request_id();
        self.begin_initialize_with(id)
    }

    /// Asks for the list of tools under the identifier `id` and hands back
    /// the request to send. Discovery can start once the handshake was
    /// answered; before that, and on a failed session, the call fails with
    /// `NotInitialized`. An identifier that was used before is refused. A
    /// call that fails leaves the session as it is.
    pub fn begin_discovery_with(&mut self, id: RequestId) -> (outcome: Result<
        MCPMessage,
        ClientError,
    >)
        requires
            old(self).wf(),
        ensures
            final(self).wf(),
            match old(self)@.request_fault(RequestKind::ToolsList, id@, Seq::<char>::empty()) {
                Some(e) => outcome == Err::<MCPMessage, ClientError>(e) && final(self)@ == old(self)@,
                None => outcome is Ok && is_discovery_request(outcome->Ok_0, id@) && final(self)@
                    == old(self)@.requested(id@, RequestKind::ToolsList),
            },
    {
        let allowed = match self.state {
            SessionState::Initializing => self.server.is_some(),
            SessionState::Ready => true,
            _ => false,
        };
        if !allowed {
            return Err(ClientError::NotInitialized);
        }
        let carried = id.clone();
        match self.pending.submit(id, RequestKind::ToolsList) {
            Err(_) => Err(ClientError::IdentifierReused),
            Ok(_) => {
                proof {
                    self.pending.lemma_consistent();
                }
                Ok(
                    MCPMessage::ToolsList {
                        jsonrpc: String::from_str(JSONRPC_VERSION),
                        id: carried,
                        params: ToolsListParams { cursor: None },
                    },
                )
            },
        }
    }

    /// Asks for the list of tools under a newly generated identifier. Whether
    /// discovery can start does not depend on the identifier; where it can,
    /// the call fails only if the identifier happens to have been used before.
    pub fn begin_discovery(&mut self) -> (outcome: Result<MCPMessage, ClientError>)
        requires
            old(self).wf(),
        ensures
            final(self).wf(),
            !old(self)@.can_discover() ==> outcome is Err,
            match outcome {
                Ok(message) => is_generated_id(message.spec_id()) && old(self)@.request_fault(
                    RequestKind::ToolsList,
                    message.spec_id(),
                    Seq::<char>::empty(),
                ) is None && is_discovery_request(message, message.spec_id()) && final(self)@
                    == old(self)@.requested(message.spec_id(), RequestKind::ToolsList),
                Err(e) => final(self)@ == old(self)@ && e == (if old(self)@.can_discover() {
                    ClientError::IdentifierReused
                } else {
                    ClientError::NotInitialized
                }),
            },
    {
        let id = MCPMessage::new_request_id();
        self.begin_discovery_with(id)
    }

    /// Prepares the call of the tool `tool_name` with `arguments` under the
    /// identifier `id` and hands back the request to send. The call fails
    /// with `NotInitialized` unless the session is ready, with `ToolNotFound`
    /// where no tool of that name is registered, and with `IdentifierReused`
    /// where the identifier was used before. A call that fails leaves the
    /// session as it is and hands back nothing to send.
    pub fn begin_call_tool_with(
        &mut self,
        id: RequestId,
        tool_name: &str,
        arguments: Option<serde_json::Value>,
    ) -> (outcome: Result<MCPMessage, ClientError>)
        requires
            old(self).wf(),
        ensures
            final(self).wf(),
            match old(self)@.request_fault(RequestKind::ToolsCall, id@, tool_name@) {
                Some(e) => outcome == Err::<MCPMessage, ClientError>(e) && final(self)@ == old(self)@,
                None => outcome is Ok && is_call_request(outcome->Ok_0, id@, tool_name@, arguments)
                    && final(self)@ == old(self)@.requested(id@, RequestKind::ToolsCall),
            },
    {
        match self.state {
            SessionState::Ready => {},
            _ => {
                return Err(ClientError::NotInitialized);
            },
        }
        if !self.tools.contains(tool_name) {
            return Err(ClientError::ToolNotFound);
        }
        let carried = id.clone();
        match self.pending.submit(id, RequestKind::ToolsCall) {
            Err(_) => Err(ClientError::IdentifierReused),
            Ok(_) => {
                proof {
                    self.pending.lemma_consistent();
                }
                Ok(
                    MCPMessage::ToolsCall {
                        jsonrpc: String::from_str(JSONRPC_VERSION),
                        id: carried,
                        params: CallToolParams { name: String::from_str(tool_name), arguments },
                    },
                )
            },
        }
    }

    /// Prepares the call of the tool `tool_name` under a newly generated
    /// identifier. Whether the session is ready and the tool known does not
    /// depend on the identifier; where both hold, the call fails only if the
    /// identifier happens to have been used before.
    pub fn begin_call_tool(&mut self, tool_name: &str, arguments: Option<serde_json::Value>) -> (outcome:
        Result<MCPMessage, ClientError>)
        requires
            old(self).wf(),
        ensures
            final(self).wf(),
            old(self)@.state != SessionState::Ready || !old(self)@.tools.dom().contains(tool_name@)
                ==> outcome is Err,
            match outcome {
                Ok(message) => is_generated_id(message.spec_id()) && old(self)@.request_fault(
                    RequestKind::ToolsCall,
                    message.spec_id(),
                    tool_name@,
                ) is None && is_call_request(message, message.spec_id(), tool_name@, arguments)
                    && final(self)@ == old(self)@.requested(
                    message.spec_id(),
                    RequestKind::ToolsCall,
                ),
                Err(e) => final(self)@ == old(self)@ && e == (if old(self)@.state
                    != SessionState::Ready {
                    ClientError::NotInitialized
                } else if !old(self)@.tools.dom().contains(tool_name@) {
                    ClientError::ToolNotFound
                } else {
                    ClientError::IdentifierReused
                }),
            },
    {
        let id = MCPMessage::new_request_id();
        self.begin_call_tool_with(id, tool_name, arguments)
    }

    /// Takes in a message from the tool provider. The message is matched to
    /// the pending request that carries its identifier, whatever the order
    /// in which answers arrive; see [`ClientView::received`] for what it does
    /// to the session and [`ClientView::replies`] for the reply.
    pub fn receive(&mut self, message: MCPMessage) -> (reply: Reply)
        requires
            old(self).wf(),
        ensures
            final(self).wf(),
            final(self)@ == old(self)@.received(message),
            old(self)@.replies(message, reply),
    {
        let awaited = self.pending.resolve(message.id().as_str());
        proof {
            self.pending.lemma_consistent();
        }
        match awaited {
            None => Reply::Orphaned,
            Some(kind) => match (kind, message) {
                (RequestKind::Initialize, MCPMessage::InitializeResult { result, .. }) => {
                    let version_matches = same_text(result.protocol_version.as_str(), MCP_PROTOCOL_VERSION);
                    self.server = Some(result);
                    Reply::Handshaken { version_matches }
                },
                (RequestKind::ToolsList, MCPMessage::ToolsListResult { result, .. }) => {
                    self.tools.register_all(result.tools);
                    proof {
                        self.tools.lemma_keyed();
                    }
                    match self.state {
                        SessionState::Initializing => {
                            self.state = SessionState::Ready;
                        },
                        _ => {},
                    }
                    Reply::Discovered
                },
                (RequestKind::ToolsCall, MCPMessage::ToolsCallResult { result, .. }) => {
                    if result.reports_failure() {
                        Reply::ToolFailed(result)
                    } else {
                        Reply::ToolSucceeded(result)
                    }
                },
                _ => {
                    let failed = self.pending.fail_all();
                    self.state = SessionState::Failed;
                    proof {
                        self.pending.lemma_consistent();
                    }
                    Reply::Rejected { failed }
                },
            },
        }
    }

    /// Gives up on the request under `id` because no answer came in time.
    /// `None`: nothing was pending under `id`, and nothing changes. `Some`:
    /// the request is over and its caller is owed a timeout error; the list
    /// holds the other requests that failed with it, which is the case only
    /// where the timeout failed the session.
    pub fn timeout(&mut self, id: &str) -> (outcome: Option<Vec<PendingRequest>>)
        requires
            old(self).wf(),
        ensures
            final(self).wf(),
            final(self)@ == old(self)@.timed_out(id@),
            outcome is Some == old(self)@.pending.pending.dom().contains(id@),
            outcome matches Some(others) ==> ids_distinct(others@) && pending_of(others@) == (if old(self)@.state == SessionState::Initializing {
                old(self)@.pending.resolved(id@).pending
            } else {
                Map::<Seq<char>, RequestKind>::empty()
            }),
    {
        if !self.pending.expire(id) {
            return None;
        }
        proof {
            self.pending.lemma_consistent();
        }
        match self.state {
            SessionState::Initializing => {
                let others = self.pending.fail_all();
                self.state = SessionState::Failed;
                proof {
                    self.pending.lemma_consistent();
                }
                Some(others)
            },
            _ => {
                let others: Vec<PendingRequest> = Vec::new();
                assert(pending_of(others@) =~= Map::<Seq<char>, RequestKind>::empty());
                Some(others)
            },
        }
    }

    /// Records that the error `cause` was met. A transport or protocol error
    /// fails a session that has started: the requests in flight are handed
    /// back, each owed a connection-closed error. Any other error, and any
    /// error on a session that has not started or has failed already, changes
    /// nothing and hands back no request.
    pub fn fail(&mut self, cause: ClientError) -> (failed: Vec<PendingRequest>)
        requires
            old(self).wf(),
        ensures
            final(self).wf(),
            final(self)@ == old(self)@.failed(cause),
            ids_distinct(failed@),
            pending_of(failed@) == (if final(self)@.state != old(self)@.state {
                old(self)@.pending.pending
            } else {
                Map::<Seq<char>, RequestKind>::empty()
            }),
    {
        let started = match self.state {
            SessionState::Initializing | SessionState::Ready => true,
            _ => false,
        };
        if cause.is_fatal() && started {
            let failed = self.pending.fail_all();
            self.state = SessionState::Failed;
            proof {
                self.pending.lemma_consistent();
            }
            failed
        } else {
            let failed: Vec<PendingRequest> = Vec::new();
            assert(pending_of(failed@) =~= Map::<Seq<char>, RequestKind>::empty());
            failed
        }
    }

    /// Ends the session: the connection counts as closed, so that every
    /// request in flight is handed back, owed a connection-closed error, and
    /// nothing stays pending.
    pub fn close(&mut self) -> (failed: Vec<PendingRequest>)
        requires
            old(self).wf(),
        ensures
            final(self).wf(),
            final(self)@ == old(self)@.failed(ClientError::ConnectionClosed),
            ids_distinct(failed@),
            pending_of(failed@) == old(self)@.pending.pending,
            final(self)@.pending.pending == Map::<Seq<char>, RequestKind>::empty(),
    {
        let ghost before = self@;
        let failed = self.fail(ClientError::ConnectionClosed);
        proof {
            if before.state == SessionState::Uninitialized || before.state == SessionState::Failed {
                assert(before.pending.pending == Map::<Seq<char>, RequestKind>::empty());
            }
        }
        failed
    }
}

} // verus!

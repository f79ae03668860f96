//! Model Context Protocol client: message model, correlation of requests and
//! responses, session lifecycle, tool registry and the invocation facade.

pub mod client;
pub mod correlation;
pub mod error;
pub mod github;
pub mod json;
pub mod laws;
pub mod message;
pub mod outcome;
pub mod protocol;
pub mod registry;
pub mod tools;
pub mod transport;

pub use client::{ClientView, MCPClient, Reply, SessionState};
pub use error::ClientError;
pub use github::create_github_tools;
pub use outcome::CallFailure;
pub use message::{
    CallToolParams, MCPMessage, MessageKind, JSONRPC_VERSION, MCP_PROTOCOL_VERSION,
};
pub use protocol::{
    CallToolResult, ClientCapabilities, ClientInfo, Content, InitializeParams, InitializeResult,
    NamedProperty, RequestId, ResourcesCapability, ServerCapabilities, ServerInfo, Tool,
    ToolInputSchema, ToolProperty, ToolsCapability, ToolsListParams, ToolsListResult,
};
pub use tools::{BuiltInTool, ToolManager};
use vstd::prelude::*;

verus! {

/// Collects what a client is made of.
pub struct MCPClientBuilder {
    name: String,
    version: String,
    server_url: Option<String>,
}

impl MCPClientBuilder {
    /// The name the client will announce.
    pub closed spec fn spec_name(self) -> Seq<char> {
        self.name@
    }

    /// The version the client will announce.
    pub closed spec fn spec_version(self) -> Seq<char> {
        self.version@
    }

    /// The address of the tool provider, where one was given.
    pub closed spec fn spec_server_url(self) -> Option<Seq<char>> {
        match self.server_url {
            Some(url) => Some(url@),
            None => None,
        }
    }

    /// A builder for a client called `name`, of version `0.1.0`, with no
    /// address yet.
    pub fn new(name: &str) -> (builder: Self)
        ensures
            builder.spec_name() == name@,
            builder.spec_version() == "0.1.0"@,
            builder.spec_server_url() is None,
    {
        MCPClientBuilder {
            name: String::from_str(name),
            version: String::from_str("0.1.0"),
            server_url: None,
        }
    }

    /// Sets the version.
    pub fn version(self, version: &str) -> (builder: Self)
        ensures
            builder.spec_name() == self.spec_name(),
            builder.spec_version() == version@,
            builder.spec_server_url() == self.spec_server_url(),
    {
        MCPClientBuilder {
            name: self.name,
            version: String::from_str(version),
            server_url: self.server_url,
        }
    }

    /// Sets the address of the tool provider.
    pub fn server_url(self, url: &str) -> (builder: Self)
        ensures
            builder.spec_name() == self.spec_name(),
            builder.spec_version() == self.spec_version(),
            builder.spec_server_url() == Some(url@),
    {
        MCPClientBuilder {
            name: self.name,
            version: self.version,
            server_url: Some(String::from_str(url)),
        }
    }

    /// The client: not connected, at the address given or else at
    /// `stdio://`.
    pub fn build(self) -> (client: MCPClient)
        ensures
            client.wf(),
            client@ == ClientView::fresh(
                self.spec_name(),
                self.spec_version(),
                match self.spec_server_url() {
                    Some(url) => url,
                    None => "stdio://"@,
                },
            ),
    {
        let url = match self.server_url {
            Some(url) => url,
            None => String::from_str("stdio://"),
        };
        MCPClient::new(self.name, self.version, url)
    }
}

} // verus!

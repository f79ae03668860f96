//! The closed union of protocol messages, keyed by method name.

use vstd::prelude::*;
use super::protocol::{
    CallToolResult, InitializeParams, InitializeResult, RequestId, ToolsListParams,
    ToolsListResult,
};

verus! {

/// The `jsonrpc` tag every message carries.
pub const JSONRPC_VERSION: &'static str = "2.0";

/// The protocol revision this client advertises.
pub const MCP_PROTOCOL_VERSION: &'static str = "2024-11-05";

/// Payload of a tool-call request.
#[derive(Debug, Clone)]
pub struct CallToolParams {
    pub name: String,
    pub arguments: Option<serde_json::Value>,
}

/// Which of the message shapes a message has.
#[derive(Debug, Clone, Copy, PartialEq, Eq, Structural)]
pub enum MessageKind {
    Initialize,
    InitializeResult,
    ToolsList,
    ToolsListResult,
    ToolsCall,
    ToolsCallResult,
    Error,
}

/// A protocol message.
#[derive(Debug, Clone)]
#[allow(inconsistent_fields)]
pub enum MCPMessage {
    /// Handshake request.
    Initialize { jsonrpc: String, id: RequestId, params: InitializeParams },
    /// Handshake result.
    InitializeResult { jsonrpc: String, id: RequestId, result: InitializeResult },
    /// Discovery request.
    ToolsList { jsonrpc: String, id: RequestId, params: ToolsListParams },
    /// Discovery result.
    ToolsListResult { jsonrpc: String, id: RequestId, result: ToolsListResult },
    /// Tool invocation.
    ToolsCall { jsonrpc: String, id: RequestId, params: CallToolParams },
    /// Result of a tool invocation.
    ToolsCallResult { jsonrpc: String, id: RequestId, result: CallToolResult },
    /// The server could not answer the request with this identifier.
    Error { jsonrpc: String, id: RequestId, message: String },
}

/// Whether `c` is a lower-case hexadecimal digit.
pub open spec fn is_lower_hex(c: char) -> bool {
    let n = c as u32;
    ('0' as u32 <= n && n <= '9' as u32) || ('a' as u32 <= n && n <= 'f' as u32)
}

/// The shape of a generated identifier: 36 characters in five groups of
/// lower-case hexadecimal digits, with a hyphen after the 8th, 12th, 16th
/// and 20th digit.
pub open spec fn is_generated_id(id: Seq<char>) -> bool {
    id.len() == 36 && forall|i: int|
        0 <= i < 36 ==> if i == 8 || i == 13 || i == 18 || i == 23 {
            #[trigger] id[i] == '-'
        } else {
            is_lower_hex(id[i])
        }
}

impl MCPMessage {
    /// A new identifier for an outgoing request: `uuid::Uuid::new_v4`,
    /// written with `to_string`. That function draws 122 random bits, so two
    /// calls may give any two identifiers, equal ones too; nothing is claimed
    /// but the shape of the text, the hyphenated lower-case form of 36
    /// characters. The call panics where the operating system has no
    /// randomness to give.
    #[verifier::external_body]
    pub fn new_request_id() -> (id: RequestId)
        ensures
            is_generated_id(id@),
    {
        uuid::Uuid::new_v4().to_string()
    }

    /// The shape of the message.
    pub open spec fn spec_kind(&self) -> MessageKind {
        match *self {
            MCPMessage::Initialize { .. } => MessageKind::Initialize,
            MCPMessage::InitializeResult { .. } => MessageKind::InitializeResult,
            MCPMessage::ToolsList { .. } => MessageKind::ToolsList,
            MCPMessage::ToolsListResult { .. } => MessageKind::ToolsListResult,
            MCPMessage::ToolsCall { .. } => MessageKind::ToolsCall,
            MCPMessage::ToolsCallResult { .. } => MessageKind::ToolsCallResult,
            MCPMessage::Error { .. } => MessageKind::Error,
        }
    }

    /// The identifier the message carries, as text.
    pub open spec fn spec_id(&self) -> Seq<char> {
        match *self {
            MCPMessage::Initialize { id, .. } => id@,
            MCPMessage::InitializeResult { id, .. } => id@,
            MCPMessage::ToolsList { id, .. } => id@,
            MCPMessage::ToolsListResult { id, .. } => id@,
            MCPMessage::ToolsCall { id, .. } => id@,
            MCPMessage::ToolsCallResult { id, .. } => id@,
            MCPMessage::Error { id, .. } => id@,
        }
    }

    /// The shape of the message.
    pub fn kind(&self) -> (k: MessageKind)
        ensures
            k == self.spec_kind(),
    {
        match self {
            MCPMessage::Initialize { .. } => MessageKind::Initialize,
            MCPMessage::InitializeResult { .. } => MessageKind::InitializeResult,
            MCPMessage::ToolsList { .. } => MessageKind::ToolsList,
            MCPMessage::ToolsListResult { .. } => MessageKind::ToolsListResult,
            MCPMessage::ToolsCall { .. } => MessageKind::ToolsCall,
            MCPMessage::ToolsCallResult { .. } => MessageKind::ToolsCallResult,
            MCPMessage::Error { .. } => MessageKind::Error,
        }
    }

    /// The identifier of the request this message is, or answers.
    pub fn id(&self) -> (id: &RequestId)
        ensures
            id@ == self.spec_id(),
    {
        match self {
            MCPMessage::Initialize { id, .. } => id,
            MCPMessage::InitializeResult { id, .. } => id,
            MCPMessage::ToolsList { id, .. } => id,
            MCPMessage::ToolsListResult { id, .. } => id,
            MCPMessage::ToolsCall { id, .. } => id,
            MCPMessage::ToolsCallResult { id, .. } => id,
            MCPMessage::Error { id, .. } => id,
        }
    }

    /// The value of the `method` discriminator on the wire. The error shape
    /// has none of its own and is written as `"error"`.
    pub fn method(&self) -> (name: &'static str)
        ensures
            name@ == method_name(self.spec_kind()),
    {
        match self {
            MCPMessage::Initialize { .. } => "initialize",
            MCPMessage::InitializeResult { .. } => "initialize/result",
            MCPMessage::ToolsList { .. } => "tools/list",
            MCPMessage::ToolsListResult { .. } => "tools/list/result",
            MCPMessage::ToolsCall { .. } => "tools/call",
            MCPMessage::ToolsCallResult { .. } => "tools/call/result",
            MCPMessage::Error { .. } => "error",
        }
    }
}

/// The method names of the wire format.
pub open spec fn method_name(kind: MessageKind) -> Seq<char> {
    match kind {
        MessageKind::Initialize => "initialize"@,
        MessageKind::InitializeResult => "initialize/result"@,
        MessageKind::ToolsList => "tools/list"@,
        MessageKind::ToolsListResult => "tools/list/result"@,
        MessageKind::ToolsCall => "tools/call"@,
        MessageKind::ToolsCallResult => "tools/call/result"@,
        MessageKind::Error => "error"@,
    }
}

} // verus!

//! What can go wrong, sorted by what it means for the session.

use vstd::prelude::*;

verus! {

/// The families of error.
#[derive(Debug, Clone, Copy, PartialEq, Eq, Structural)]
pub enum ErrorCategory {
    /// The channel to the tool provider could not be opened or is gone.
    Transport,
    /// The tool provider said something the protocol does not allow here.
    Protocol,
    /// A request found no answer, or its identifier could not be issued.
    Correlation,
    /// A tool is unknown, or the tool itself reported a failure.
    Tool,
    /// The client was used in a state that does not permit the call.
    Usage,
}

/// An error of the client.
#[derive(Debug, Clone, Copy, PartialEq, Eq, Structural)]
pub enum ClientError {
    /// The session is not ready.
    NotInitialized,
    /// The session was started before; a client connects once.
    AlreadyStarted,
    /// The server address names no transport the client knows.
    UnsupportedUrl,
    /// The server address names the network transport, which is not shipped.
    HttpNotImplemented,
    /// The tool provider's process could not be started.
    SpawnFailed,
    /// Writing to the tool provider failed.
    WriteFailed,
    /// The connection ended while the request was pending.
    ConnectionClosed,
    /// An encoded message held a line break.
    EmbeddedNewline,
    /// A line from the tool provider could not be decoded.
    MalformedMessage,
    /// The answer to a request had the wrong shape.
    UnexpectedMessage,
    /// No answer came in time.
    Timeout,
    /// The identifier offered for a request was used before.
    IdentifierReused,
    /// No tool of that name is registered.
    ToolNotFound,
    /// The tool ran and reported a failure.
    ToolFailed,
}

impl ClientError {
    /// The family the error belongs to.
    pub open spec fn spec_category(self) -> ErrorCategory {
        match self {
            ClientError::NotInitialized | ClientError::AlreadyStarted => ErrorCategory::Usage,
            ClientError::UnsupportedUrl
            | ClientError::HttpNotImplemented
            | ClientError::SpawnFailed
            | ClientError::WriteFailed
            | ClientError::ConnectionClosed
            | ClientError::EmbeddedNewline => ErrorCategory::Transport,
            ClientError::MalformedMessage | ClientError::UnexpectedMessage => ErrorCategory::Protocol,
            ClientError::Timeout | ClientError::IdentifierReused => ErrorCategory::Correlation,
            ClientError::ToolNotFound | ClientError::ToolFailed => ErrorCategory::Tool,
        }
    }

    /// Whether the error leaves the connection unusable: transport and
    /// protocol errors do, the others are scoped to one call.
    pub open spec fn spec_is_fatal(self) -> bool {
        self.spec_category() == ErrorCategory::Transport || self.spec_category()
            == ErrorCategory::Protocol
    }

    /// The family the error belongs to.
    pub fn category(self) -> (category: ErrorCategory)
        ensures
            category == self.spec_category(),
    {
        match self {
            ClientError::NotInitialized | ClientError::AlreadyStarted => ErrorCategory::Usage,
            ClientError::UnsupportedUrl
            | ClientError::HttpNotImplemented
            | ClientError::SpawnFailed
            | ClientError::WriteFailed
            | ClientError::ConnectionClosed
            | ClientError::EmbeddedNewline => ErrorCategory::Transport,
            ClientError::MalformedMessage | ClientError::UnexpectedMessage => ErrorCategory::Protocol,
            ClientError::Timeout | ClientError::IdentifierReused => ErrorCategory::Correlation,
            ClientError::ToolNotFound | ClientError::ToolFailed => ErrorCategory::Tool,
        }
    }

    /// Whether the error leaves the connection unusable.
    pub fn is_fatal(self) -> (fatal: bool)
        ensures
            fatal == self.spec_is_fatal(),
    {
        match self.category() {
            ErrorCategory::Transport | ErrorCategory::Protocol => true,
            _ => false,
        }
    }

    /// Whether the caller may repeat the call on the same session: only
    /// errors that leave the session as it was allow that.
    pub fn is_retryable(self) -> (retryable: bool)
        ensures
            retryable == !self.spec_is_fatal(),
    {
        !self.is_fatal()
    }

    /// A sentence for the user.
    pub fn message(self) -> (text: &'static str)
        ensures
            text@ == self.spec_message(),
    {
        match self {
            ClientError::NotInitialized => "MCP client not initialized",
            ClientError::AlreadyStarted => "MCP client was already started",
            ClientError::UnsupportedUrl => "Unsupported server URL format",
            ClientError::HttpNotImplemented => "HTTP MCP client not yet implemented",
            ClientError::SpawnFailed => "Failed to start MCP server",
            ClientError::WriteFailed => "Failed to write to MCP server",
            ClientError::ConnectionClosed => "Connection to MCP server closed",
            ClientError::EmbeddedNewline => "Encoded MCP message contains a line break",
            ClientError::MalformedMessage => "Failed to parse MCP response",
            ClientError::UnexpectedMessage => "Unexpected MCP response format",
            ClientError::Timeout => "Timed out waiting for MCP server",
            ClientError::IdentifierReused => "Request identifier was used before",
            ClientError::ToolNotFound => "Tool not found",
            ClientError::ToolFailed => "Tool reported a failure",
        }
    }

    /// The sentence for each error.
    pub open spec fn spec_message(self) -> Seq<char> {
        match self {
            ClientError::NotInitialized => "MCP client not initialized"@,
            ClientError::AlreadyStarted => "MCP client was already started"@,
            ClientError::UnsupportedUrl => "Unsupported server URL format"@,
            ClientError::HttpNotImplemented => "HTTP MCP client not yet implemented"@,
            ClientError::SpawnFailed => "Failed to start MCP server"@,
            ClientError::WriteFailed => "Failed to write to MCP server"@,
            ClientError::ConnectionClosed => "Connection to MCP server closed"@,
            ClientError::EmbeddedNewline => "Encoded MCP message contains a line break"@,
            ClientError::MalformedMessage => "Failed to parse MCP response"@,
            ClientError::UnexpectedMessage => "Unexpected MCP response format"@,
            ClientError::Timeout => "Timed out waiting for MCP server"@,
            ClientError::IdentifierReused => "Request identifier was used before"@,
            ClientError::ToolNotFound => "Tool not found"@,
            ClientError::ToolFailed => "Tool reported a failure"@,
        }
    }

    /// The sentence for the error when it concerns `subject`: the tool that
    /// was not found is named, and so is the address that names no
    /// transport. Every other error reads as [`Self::spec_message`] has it.
    pub open spec fn spec_message_about(self, subject: Seq<char>) -> Seq<char> {
        match self {
            ClientError::ToolNotFound => "Tool '"@ + subject + "' not found"@,
            ClientError::UnsupportedUrl => "Unsupported server URL format: "@ + subject,
            _ => self.spec_message(),
        }
    }

    /// A sentence for the user that names what the error concerns: the tool
    /// for `ToolNotFound`, the server's address for `UnsupportedUrl`.
    pub fn message_about(self, subject: &str) -> (text: String)
        ensures
            text@ == self.spec_message_about(subject@),
    {
        match self {
            ClientError::ToolNotFound => {
                let mut text = String::from_str("Tool '");
                text.append(subject);
                text.append("' not found");
                text
            },
            ClientError::UnsupportedUrl => {
                let mut text = String::from_str("Unsupported server URL format: ");
                text.append(subject);
                text
            },
            _ => String::from_str(self.message()),
        }
    }
}

} // verus!

//! What the caller of the facade is told: the result or error that each
//! reply, timeout or failure comes to.

use vstd::prelude::*;
use super::client::Reply;
use super::correlation::PendingRequest;
use super::error::ClientError;
use super::protocol::{CallToolResult, CallToolResultView};

verus! {

/// Why a tool call gave no result. Where the tool ran and reported a
/// failure, what it said is kept.
#[derive(Debug)]
pub struct CallFailure {
    pub error: ClientError,
    pub result: Option<CallToolResult>,
}

/// Mathematical value of a [`CallFailure`].
pub struct CallFailureView {
    pub error: ClientError,
    pub result: Option<CallToolResultView>,
}

impl View for CallFailure {
    type V = CallFailureView;

    open spec fn view(&self) -> CallFailureView {
        CallFailureView {
            error: self.error,
            result: match self.result {
                Some(r) => Some(r@),
                None => None,
            },
        }
    }
}

/// Whether a reply ends the wait for an answer: every reply does, but the
/// one to a message that was dropped.
pub fn settles(reply: &Reply) -> (settled: bool)
    ensures
        settled == !(*reply is Orphaned),
{
    match reply {
        Reply::Orphaned => false,
        _ => true,
    }
}

/// What the caller of a tool is told when `reply` ends its wait: the result
/// where the tool succeeded; a tool-level error with what the tool said
/// where it reported a failure; and for any other reply a protocol-level
/// error, the answer not being one to a tool call.
pub fn call_outcome(reply: Reply) -> (outcome: Result<CallToolResult, CallFailure>)
    ensures
        match reply {
            Reply::ToolSucceeded(result) => outcome matches Ok(given) && given@ == result@,
            Reply::ToolFailed(result) => outcome matches Err(failure) && failure@ == (
            CallFailureView { error: ClientError::ToolFailed, result: Some(result@) }),
            _ => outcome matches Err(failure) && failure@ == (CallFailureView {
                error: ClientError::UnexpectedMessage,
                result: None,
            }),
        },
{
    match reply {
        Reply::ToolSucceeded(result) => Ok(result),
        Reply::ToolFailed(result) => Err(
            CallFailure { error: ClientError::ToolFailed, result: Some(result) },
        ),
        _ => Err(CallFailure { error: ClientError::UnexpectedMessage, result: None }),
    }
}

/// What the caller is told when `reply` ends the wait for the handshake:
/// whether the server speaks the client's protocol revision, or a
/// protocol-level error where the reply is not one to a handshake.
pub fn handshake_outcome(reply: Reply) -> (outcome: Result<bool, ClientError>)
    ensures
        outcome == match reply {
            Reply::Handshaken { version_matches } => Ok::<bool, ClientError>(version_matches),
            _ => Err::<bool, ClientError>(ClientError::UnexpectedMessage),
        },
{
    match reply {
        Reply::Handshaken { version_matches } => Ok(version_matches),
        _ => Err(ClientError::UnexpectedMessage),
    }
}

/// What the caller is told when `reply` ends the wait for discovery:
/// success, or a protocol-level error where the reply is not one to
/// discovery.
pub fn discovery_outcome(reply: Reply) -> (outcome: Result<(), ClientError>)
    ensures
        outcome == match reply {
            Reply::Discovered => Ok::<(), ClientError>(()),
            _ => Err::<(), ClientError>(ClientError::UnexpectedMessage),
        },
{
    match reply {
        Reply::Discovered => Ok(()),
        _ => Err(ClientError::UnexpectedMessage),
    }
}

/// What the caller that waited for an answer is told once the wait was given
/// up, given what [`super::client::MCPClient::timeout`] answered: a timeout
/// error where the request was still pending, and nothing where it was not,
/// its answer or failure having come before.
pub fn timeout_outcome(expired: &Option<Vec<PendingRequest>>) -> (outcome: Option<ClientError>)
    ensures
        outcome == (if *expired is Some {
            Some(ClientError::Timeout)
        } else {
            None::<ClientError>
        }),
{
    match expired {
        Some(_) => Some(ClientError::Timeout),
        None => None,
    }
}

} // verus!

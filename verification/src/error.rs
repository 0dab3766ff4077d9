//! The ways in which a session can fail.

use vstd::prelude::*;

verus! {

/// What went wrong. Each kind is reported to the caller of the operation
/// that met it; nothing is retried.
#[derive(Debug, Clone, Copy, PartialEq, Eq, Structural)]
pub enum ChatError {
    /// The connection to the server could not be opened.
    ConnectFailure,
    /// The opening lines could not be flushed to the server.
    HandshakeFailure,
    /// The idle timeout of reads could not be set.
    TimeoutConfigurationFailure,
    /// A read failed or timed out, or the server closed the connection.
    ReceiveFailure,
    /// An outbound line could not be written and flushed.
    SendFailure,
    /// A reply was asked for to a chat message without an `id` tag.
    ReplyPreconditionUnmet,
}

/// The sentence that reports `error`.
pub open spec fn description(error: ChatError) -> Seq<char> {
    match error {
        ChatError::ConnectFailure => "Unable to connect to specified URL"@,
        ChatError::HandshakeFailure => "Unable to perform handshake"@,
        ChatError::TimeoutConfigurationFailure => "Unable to set timeout on TCP Stream"@,
        ChatError::ReceiveFailure => "Unable to read from connection"@,
        ChatError::SendFailure => "Unable to send message"@,
        ChatError::ReplyPreconditionUnmet => "Unable to reply to message"@,
    }
}

impl ChatError {
    /// The sentence that reports this error.
    pub fn describe(&self) -> (text: &'static str)
        ensures
            text@ == description(*self),
    {
        match self {
            ChatError::ConnectFailure => "Unable to connect to specified URL",
            ChatError::HandshakeFailure => "Unable to perform handshake",
            ChatError::TimeoutConfigurationFailure => "Unable to set timeout on TCP Stream",
            ChatError::ReceiveFailure => "Unable to read from connection",
            ChatError::SendFailure => "Unable to send message",
            ChatError::ReplyPreconditionUnmet => "Unable to reply to message",
        }
    }
}

} // verus!

//! The failures that the components report, grouped by how they are handled.

use vstd::prelude::*;

verus! {

/// The four families of failure.
#[derive(Clone, Copy, Debug, PartialEq, Eq, Structural)]
pub enum ErrorKind {
    /// The transport could not be opened, negotiated or kept.
    Connection,
    /// A message was malformed or arrived in a state that does not allow it.
    Protocol,
    /// The peer at the other end of an internal channel or lock is gone.
    Channel,
    /// The configuration handed to the process cannot be used.
    Configuration,
}

/// A failure of one component.
#[derive(Clone, Copy, Debug, PartialEq, Eq, Structural)]
pub enum Error {
    /// The configuration cannot be used. For the difficulty parameters this
    /// means that they leave nothing to measure: a rate, window or
    /// difficulty of zero, or a window in which no share is expected.
    InvalidConfiguration,
    /// The transport to the pool could not be opened.
    TransportUnavailable,
    /// The pool and the proxy share no protocol version.
    NoCommonVersion,
    /// The connection was reset or timed out.
    ConnectionLost,
    /// A frame could not be decoded.
    MalformedFrame,
    /// A well-formed message arrived in a state that does not allow it.
    UnexpectedMessage,
    /// The pool sent an extranonce space that leaves no room for a session prefix.
    ExtranonceTooSmall,
    /// The receiving or sending end of an internal channel was dropped.
    ChannelClosed,
    /// A task died while it held the lock on shared state.
    LockPoisoned,
}

impl Error {
    /// The family that decides how the failure is handled.
    pub open spec fn spec_kind(self) -> ErrorKind {
        match self {
            Error::InvalidConfiguration => ErrorKind::Configuration,
            Error::TransportUnavailable | Error::NoCommonVersion | Error::ConnectionLost =>
                ErrorKind::Connection,
            Error::MalformedFrame | Error::UnexpectedMessage | Error::ExtranonceTooSmall =>
                ErrorKind::Protocol,
            Error::ChannelClosed | Error::LockPoisoned => ErrorKind::Channel,
        }
    }

    /// The family that decides how the failure is handled.
    pub fn kind(&self) -> (k: ErrorKind)
        ensures
            k == self.spec_kind(),
    {
        match self {
            Error::InvalidConfiguration => ErrorKind::Configuration,
            Error::TransportUnavailable | Error::NoCommonVersion | Error::ConnectionLost =>
                ErrorKind::Connection,
            Error::MalformedFrame | Error::UnexpectedMessage | Error::ExtranonceTooSmall =>
                ErrorKind::Protocol,
            Error::ChannelClosed | Error::LockPoisoned => ErrorKind::Channel,
        }
    }

    /// The words that describe the failure in a log line.
    pub open spec fn spec_describe(self) -> Seq<char> {
        match self {
            Error::InvalidConfiguration => "invalid configuration"@,
            Error::TransportUnavailable => "transport could not be opened"@,
            Error::NoCommonVersion => "no mutually supported protocol version"@,
            Error::ConnectionLost => "connection lost"@,
            Error::MalformedFrame => "malformed frame"@,
            Error::UnexpectedMessage => "message not allowed in this state"@,
            Error::ExtranonceTooSmall => "extranonce space too small"@,
            Error::ChannelClosed => "channel closed by peer"@,
            Error::LockPoisoned => "lock poisoned"@,
        }
    }

    /// The words that describe the failure in a log line.
    pub fn describe(&self) -> (s: String)
        ensures
            s@ == self.spec_describe(),
    {
        match self {
            Error::InvalidConfiguration => "invalid configuration".to_owned(),
            Error::TransportUnavailable => "transport could not be opened".to_owned(),
            Error::NoCommonVersion => "no mutually supported protocol version".to_owned(),
            Error::ConnectionLost => "connection lost".to_owned(),
            Error::MalformedFrame => "malformed frame".to_owned(),
            Error::UnexpectedMessage => "message not allowed in this state".to_owned(),
            Error::ExtranonceTooSmall => "extranonce space too small".to_owned(),
            Error::ChannelClosed => "channel closed by peer".to_owned(),
            Error::LockPoisoned => "lock poisoned".to_owned(),
        }
    }
}

} // verus!

//! Sockets: where frames for this node end up.

use vstd::prelude::*;
use crate::nash::NameHash;
use crate::{FrameKind, Header, Key, ProtocolError};

pub mod borrow;
pub mod frame_queue;

verus! {

/// What a socket is for.
#[derive(Clone, Copy, Debug, PartialEq, Eq, Structural)]
pub struct Attributes {
    /// The kind of messages that the socket takes.
    pub kind: FrameKind,
    /// Whether the socket can be reached through the "any" port.
    pub discoverable: bool,
}

/// What the stack knows of a socket.
#[derive(Clone, Copy, Debug, PartialEq)]
pub struct SocketHeader {
    /// 0 for a socket that is not attached, 255 for one that listens to
    /// broadcasts.
    pub port: u8,
    pub attrs: Attributes,
    pub key: Key,
    pub nash: Option<NameHash>,
}

/// Why a socket did not take a message.
#[derive(Clone, Copy, Debug, PartialEq, Eq, Structural)]
#[non_exhaustive]
pub enum SocketSendError {
    /// Socket has no space for the message
    NoSpace,
    /// Deserialization failed at the socket
    DeserFailed,
    /// Type mismatch at the socket
    TypeMismatch,
    /// Internal socket error
    WhatTheHell,
}

impl SocketSendError {
    /// How the error is reported to the sender of a frame.
    pub open spec fn error(self) -> ProtocolError {
        match self {
            SocketSendError::NoSpace => ProtocolError::SseNoSpace,
            SocketSendError::DeserFailed => ProtocolError::SseDeserFailed,
            SocketSendError::TypeMismatch => ProtocolError::SseTypeMismatch,
            SocketSendError::WhatTheHell => ProtocolError::SseWhatTheHell,
        }
    }

    /// How the error is reported to the sender of a frame.
    pub fn to_error(&self) -> (r: ProtocolError)
        ensures
            r == self.error(),
    {
        match self {
            SocketSendError::NoSpace => ProtocolError::SseNoSpace,
            SocketSendError::DeserFailed => ProtocolError::SseDeserFailed,
            SocketSendError::TypeMismatch => ProtocolError::SseTypeMismatch,
            SocketSendError::WhatTheHell => ProtocolError::SseWhatTheHell,
        }
    }
}

/// A value together with the header that it came with.
#[derive(Debug)]
pub struct HeaderMessage<T> {
    pub hdr: Header,
    pub t: T,
}

} // verus!

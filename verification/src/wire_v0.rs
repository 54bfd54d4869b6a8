//! The header of wire version 0, which the CAN FD interface still speaks.

use vstd::prelude::*;
use crate::address::Address;
use crate::{AnyAllAppendix, Header};

verus! {

/// What a frame of wire version 0 is.
#[derive(Clone, Copy, Debug, PartialEq, Eq, Structural)]
pub struct FrameKind(pub u8);

impl FrameKind {
    /// Not in use.
    #[verifier::allow_in_spec]
    pub fn reserved() -> FrameKind
        returns
            FrameKind(0),
    {
        FrameKind(0)
    }

    /// A request to an endpoint.
    #[verifier::allow_in_spec]
    pub fn endpoint_req() -> FrameKind
        returns
            FrameKind(1),
    {
        FrameKind(1)
    }

    /// An endpoint's response.
    #[verifier::allow_in_spec]
    pub fn endpoint_resp() -> FrameKind
        returns
            FrameKind(2),
    {
        FrameKind(2)
    }

    /// A message on a topic.
    #[verifier::allow_in_spec]
    pub fn topic_msg() -> FrameKind
        returns
            FrameKind(3),
    {
        FrameKind(3)
    }

    /// A protocol error report.
    #[verifier::allow_in_spec]
    pub fn protocol_error() -> FrameKind
        returns
            FrameKind(255),
    {
        FrameKind(255)
    }
}

/// The header of a frame of wire version 0.
#[derive(Clone, Copy, Debug, PartialEq)]
pub struct HeaderSeq {
    pub src: Address,
    pub dst: Address,
    pub any_all: Option<AnyAllAppendix>,
    /// Sequence number for request/response correlation.
    pub seq_no: u16,
    pub kind: FrameKind,
    pub ttl: u8,
}

/// The same kind in wire version 0.
pub open spec fn kind_v0(kind: crate::FrameKind) -> FrameKind {
    if kind == crate::FrameKind::protocol_error() {
        FrameKind::protocol_error()
    } else {
        FrameKind(kind.0)
    }
}

/// The same header in wire version 0: the sequence number is zero and the
/// traffic class is lost.
pub open spec fn header_v0(hdr: Header) -> HeaderSeq {
    HeaderSeq {
        src: hdr.src,
        dst: hdr.dst,
        any_all: hdr.any_all,
        seq_no: 0,
        kind: kind_v0(hdr.kind),
        ttl: hdr.ttl,
    }
}

impl HeaderSeq {
    /// The same header in wire version 0, see [`header_v0`].
    pub fn from_header(hdr: &Header) -> (r: HeaderSeq)
        ensures
            r == header_v0(*hdr),
    {
        let kind = if hdr.kind == crate::FrameKind::protocol_error() {
            FrameKind::protocol_error()
        } else {
            FrameKind(hdr.kind.0)
        };
        HeaderSeq {
            src: hdr.src,
            dst: hdr.dst,
            any_all: hdr.any_all,
            seq_no: 0,
            kind,
            ttl: hdr.ttl,
        }
    }
}

} // verus!

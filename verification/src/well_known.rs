//! The well-known endpoints and topics, and the messages on them.

use vstd::prelude::*;
use crate::address::Address;
use crate::interface_manager::{
    AddressClaimError, AddressRefreshError, NodeClaimAssignment, SeedAssignmentError,
    SeedNetAssignment, SeedRefreshError,
};
use crate::nash::NameHash;
use crate::{FrameKind, TrafficClass};

verus! {

/// A string of bounded length, `heapless::String`. Only carried along: the
/// library never looks inside one.
#[verifier::external_type_specification]
#[verifier::external_body]
pub struct ExBoundedString<const N: usize>(heapless::String<N>);

/// The well-known endpoints and topics.
#[derive(Clone, Copy, Debug, PartialEq, Eq, Structural)]
pub enum WellKnown {
    /// Answers with the number it was sent.
    Ping,
    /// Formatted log messages.
    Fmt,
    /// Raw defmt frames.
    Defmt,
    /// What a device says of itself, see [`DeviceInfo`].
    DeviceInfo,
    /// Asks all devices for their [`DeviceInfo`].
    DeviceInfoInterrogation,
    /// Asks for sockets, see [`SocketQuery`].
    SocketQuery,
    /// Answers to a [`SocketQuery`].
    SocketQueryResponse,
    /// Asks a seed router for a network ID.
    SeedRouterAssignment,
    /// Refreshes a network ID.
    SeedRouterRefresh,
    /// Gives a network ID back.
    SeedRouterRelease,
    /// Claims a node ID on a bus.
    AddressClaim,
    /// Refreshes a claim.
    AddressRefresh,
    /// Asks for the MTU of a path.
    PathMtu,
}

impl WellKnown {
    /// The path that the key is made from.
    pub open spec fn spec_path(self) -> Seq<char> {
        match self {
            WellKnown::Ping => "ergot/.well-known/ping"@,
            WellKnown::Fmt => "ergot/.well-known/fmt"@,
            WellKnown::Defmt => "ergot/.well-known/defmt"@,
            WellKnown::DeviceInfo => "ergot/.well-known/device-info"@,
            WellKnown::DeviceInfoInterrogation => "ergot/.well-known/device-info/interrogation"@,
            WellKnown::SocketQuery => "ergot/.well-known/socket/query"@,
            WellKnown::SocketQueryResponse => "ergot/.well-known/socket/query/response"@,
            WellKnown::SeedRouterAssignment => "ergot/.well-known/seed-router/request"@,
            WellKnown::SeedRouterRefresh => "ergot/.well-known/seed-router/refresh"@,
            WellKnown::SeedRouterRelease => "ergot/.well-known/seed-router/release"@,
            WellKnown::AddressClaim => "ergot/.well-known/address/claim"@,
            WellKnown::AddressRefresh => "ergot/.well-known/address/refresh"@,
            WellKnown::PathMtu => "ergot/.well-known/path-mtu"@,
        }
    }

    /// The path that the key is made from.
    pub fn path(self) -> (r: &'static str)
        ensures
            r@ == self.spec_path(),
    {
        match self {
            WellKnown::Ping => "ergot/.well-known/ping",
            WellKnown::Fmt => "ergot/.well-known/fmt",
            WellKnown::Defmt => "ergot/.well-known/defmt",
            WellKnown::DeviceInfo => "ergot/.well-known/device-info",
            WellKnown::DeviceInfoInterrogation => "ergot/.well-known/device-info/interrogation",
            WellKnown::SocketQuery => "ergot/.well-known/socket/query",
            WellKnown::SocketQueryResponse => "ergot/.well-known/socket/query/response",
            WellKnown::SeedRouterAssignment => "ergot/.well-known/seed-router/request",
            WellKnown::SeedRouterRefresh => "ergot/.well-known/seed-router/refresh",
            WellKnown::SeedRouterRelease => "ergot/.well-known/seed-router/release",
            WellKnown::AddressClaim => "ergot/.well-known/address/claim",
            WellKnown::AddressRefresh => "ergot/.well-known/address/refresh",
            WellKnown::PathMtu => "ergot/.well-known/path-mtu",
        }
    }

    /// The traffic class of its frames: what a network needs to come up and to be
    /// watched goes first, logs go last.
    pub fn class(self) -> (r: TrafficClass)
        ensures
            r == match self {
                WellKnown::Ping
                | WellKnown::SeedRouterAssignment
                | WellKnown::SeedRouterRefresh
                | WellKnown::SeedRouterRelease
                | WellKnown::AddressClaim
                | WellKnown::AddressRefresh => TrafficClass::Control,
                WellKnown::Fmt | WellKnown::Defmt => TrafficClass::Background,
                _ => TrafficClass::Normal,
            },
    {
        match self {
            WellKnown::Ping => TrafficClass::Control,
            WellKnown::SeedRouterAssignment => TrafficClass::Control,
            WellKnown::SeedRouterRefresh => TrafficClass::Control,
            WellKnown::SeedRouterRelease => TrafficClass::Control,
            WellKnown::AddressClaim => TrafficClass::Control,
            WellKnown::AddressRefresh => TrafficClass::Control,
            WellKnown::Fmt => TrafficClass::Background,
            WellKnown::Defmt => TrafficClass::Background,
            _ => TrafficClass::Normal,
        }
    }
}

pub type SeedRouterAssignmentResponse = Result<SeedRouterAssignment, SeedAssignmentError>;

pub type SeedRouterRefreshResponse = Result<SeedNetAssignment, SeedRefreshError>;

pub type SeedRouterReleaseResponse = Result<(), SeedRefreshError>;

pub type AddressClaimResponse = Result<AddressClaimGranted, AddressClaimError>;

pub type AddressRefreshResponse = Result<NodeClaimAssignment, AddressRefreshError>;

/// What a device says of itself.
#[derive(Clone, Debug, PartialEq, Eq, Hash)]
pub struct DeviceInfo {
    pub name: Option<heapless::String<16>>,
    pub description: Option<heapless::String<32>>,
    pub unique_id: u64,
    /// The [`WIRE_VERSION`](crate::WIRE_VERSION) this device speaks. Peers
    /// on a different version cannot exchange frames at all; this field
    /// exists so tooling can say *why* a device is silent.
    pub wire_version: u8,
}

/// Which names a [`SocketQuery`] is about.
#[derive(Clone, Copy, Debug, PartialEq, Eq, Structural)]
pub enum NameRequirement {
    /// Only sockets without a name.
    NoName,
    /// Sockets with and without a name.
    Any,
    /// Only sockets with this name.
    Specific(NameHash),
}

/// Asks for sockets.
#[derive(Clone, Copy, Debug, PartialEq)]
pub struct SocketQuery {
    pub key: [u8; 8],
    pub nash_req: NameRequirement,
    pub frame_kind: FrameKind,
    pub broadcast: bool,
}

/// The full address of a socket that was found.
#[derive(Clone, Copy, Debug, PartialEq, Eq, Structural)]
pub struct SocketQueryResponseAddress {
    pub name: Option<NameHash>,
    pub address: Address,
}

/// A socket that was found.
#[derive(Clone, Copy, Debug, PartialEq, Eq, Structural)]
pub struct SocketQueryResponse {
    pub name: Option<NameHash>,
    pub port: u8,
}

/// A network ID, and the ports to refresh and to release it at.
#[derive(Clone, Debug, PartialEq)]
pub struct SeedRouterAssignment {
    pub assignment: SeedNetAssignment,
    pub refresh_port: u8,
    pub release_port: u8,
}

/// Refreshes a network ID.
#[derive(Clone, Copy, Debug, PartialEq)]
pub struct SeedRouterRefreshRequest {
    pub refresh_net: u16,
    pub refresh_token: [u8; 8],
}

/// Gives a network ID back.
#[derive(Clone, Copy, Debug, PartialEq)]
pub struct SeedRouterReleaseRequest {
    pub release_net: u16,
    pub refresh_token: [u8; 8],
}

/// Claims a node ID on a bus.
#[derive(Clone, Copy, Debug, PartialEq, Eq, Structural)]
pub struct AddressClaimRequest {
    pub candidate_node_id: u8,
    pub nonce: u64,
}

/// A claim, and the port to refresh it at.
#[derive(Clone, Debug, PartialEq)]
pub struct AddressClaimGranted {
    pub assignment: NodeClaimAssignment,
    pub refresh_port: u8,
}

/// Refreshes a claim.
#[derive(Clone, Copy, Debug, PartialEq)]
pub struct AddressRefreshRequest {
    pub node_id: u8,
    pub refresh_token: [u8; 8],
}

/// Asks for the MTU of a path.
#[derive(Clone, Copy, Debug, PartialEq, Eq, Structural)]
pub struct PathMtuQuery {
    pub path_mtu: u16,
}

/// The MTU of a path.
#[derive(Clone, Copy, Debug, PartialEq, Eq, Structural)]
pub struct PathMtuResult {
    pub path_mtu: u16,
}

/// Every path begins in the same way and goes on with what it is for.
pub proof fn paths_have_one_root(kind: WellKnown)
    ensures
        kind.spec_path() == "ergot/.well-known/"@ + (match kind {
            WellKnown::Ping => "ping"@,
            WellKnown::Fmt => "fmt"@,
            WellKnown::Defmt => "defmt"@,
            WellKnown::DeviceInfo => "device-info"@,
            WellKnown::DeviceInfoInterrogation => "device-info/interrogation"@,
            WellKnown::SocketQuery => "socket/query"@,
            WellKnown::SocketQueryResponse => "socket/query/response"@,
            WellKnown::SeedRouterAssignment => "seed-router/request"@,
            WellKnown::SeedRouterRefresh => "seed-router/refresh"@,
            WellKnown::SeedRouterRelease => "seed-router/release"@,
            WellKnown::AddressClaim => "address/claim"@,
            WellKnown::AddressRefresh => "address/refresh"@,
            WellKnown::PathMtu => "path-mtu"@,
        }),
{
    reveal_strlit("ergot/.well-known/");
    match kind {
        WellKnown::Ping => {
            reveal_strlit("ping");
            reveal_strlit("ergot/.well-known/ping");
        },
        WellKnown::Fmt => {
            reveal_strlit("fmt");
            reveal_strlit("ergot/.well-known/fmt");
        },
        WellKnown::Defmt => {
            reveal_strlit("defmt");
            reveal_strlit("ergot/.well-known/defmt");
        },
        WellKnown::DeviceInfo => {
            reveal_strlit("device-info");
            reveal_strlit("ergot/.well-known/device-info");
        },
        WellKnown::DeviceInfoInterrogation => {
            reveal_strlit("device-info/interrogation");
            reveal_strlit("ergot/.well-known/device-info/interrogation");
        },
        WellKnown::SocketQuery => {
            reveal_strlit("socket/query");
            reveal_strlit("ergot/.well-known/socket/query");
        },
        WellKnown::SocketQueryResponse => {
            reveal_strlit("socket/query/response");
            reveal_strlit("ergot/.well-known/socket/query/response");
        },
        WellKnown::SeedRouterAssignment => {
            reveal_strlit("seed-router/request");
            reveal_strlit("ergot/.well-known/seed-router/request");
        },
        WellKnown::SeedRouterRefresh => {
            reveal_strlit("seed-router/refresh");
            reveal_strlit("ergot/.well-known/seed-router/refresh");
        },
        WellKnown::SeedRouterRelease => {
            reveal_strlit("seed-router/release");
            reveal_strlit("ergot/.well-known/seed-router/release");
        },
        WellKnown::AddressClaim => {
            reveal_strlit("address/claim");
            reveal_strlit("ergot/.well-known/address/claim");
        },
        WellKnown::AddressRefresh => {
            reveal_strlit("address/refresh");
            reveal_strlit("ergot/.well-known/address/refresh");
        },
        WellKnown::PathMtu => {
            reveal_strlit("path-mtu");
            reveal_strlit("ergot/.well-known/path-mtu");
        },
    }
}

} // verus!

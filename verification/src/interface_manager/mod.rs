//! The Interface Manager
//!
//! The [`NetStack`] is generic over a "Profile", which is how it handles any
//! external interfaces of the current program or device.
//!
//! In general when sending a message, the [`NetStack`] checks if the message
//! is definitively for the local device (e.g. Net ID = 0, Node ID = 0), and if
//! not passes the message to the profile. If the profile can route this
//! packet, it informs the NetStack it has done so. If it realizes that the
//! packet is still for us (e.g. matching a Net ID and Node ID of the local
//! device), it bounces the message back to the NetStack to locally route.
//!
//! [`NetStack`]: crate::net_stack::NetStack

use vstd::prelude::*;
use crate::address::Address;
use crate::net_stack;
use crate::net_stack::{NetStack, NetStackSendError};
use crate::{Header, ProtocolError};

pub mod edge_port;
pub mod interface_impls;
pub mod lease_laws;
pub mod lease_table;
pub mod leases;
pub mod profiles;

use edge_port::{CENTRAL_NODE_ID, EDGE_NODE_ID};

verus! {

/// A type with a value to start from.
pub trait ConstInit {
    const INIT: Self;
}

/// A successful Net ID assignment or refresh from a Seed Router
#[derive(Clone, Copy, Debug, PartialEq)]
pub struct SeedNetAssignment {
    /// The newly assigned net id
    pub net_id: u16,
    /// How many seconds from NOW does the assignment expire?
    pub expires_seconds: u16,
    /// What is the LONGEST time that this seed router will grant Net IDs for?
    pub max_refresh_seconds: u16,
    /// Don't ask to refresh this token until we are < this many seconds from the expiration time
    pub min_refresh_seconds: u16,
    /// The unique token to be used for later refresh requests.
    pub refresh_token: [u8; 8],
}

/// A seed lease held by a bridge, including the address of the parent seed
/// router that must be contacted to refresh it.
#[derive(Clone, Copy, Debug, PartialEq)]
pub struct SeedLease {
    /// The assigned net_id.
    pub net_id: u16,
    /// Address to send refresh requests to.
    pub refresh_addr: Address,
    /// Address to send an explicit release request to.
    pub release_addr: Address,
    /// Current refresh token issued by the parent seed router.
    pub refresh_token: [u8; 8],
    /// Lease duration in seconds.
    pub expires_seconds: u16,
    /// Maximum refresh interval in seconds.
    pub max_refresh_seconds: u16,
    /// Minimum time before expiration to refresh.
    pub min_refresh_seconds: u16,
}

/// Result of validating a delegated refresh request.
#[derive(Clone, Copy, Debug, PartialEq)]
pub enum DelegatedRefreshPreparation {
    /// Contact the parent seed router with the stored lease.
    Forward(SeedLease),
    /// The caller retried the immediately previous token after losing the
    /// response; replay the already-committed assignment without upstream I/O.
    Replay(SeedNetAssignment),
}

/// An error occurred when assigning a net ID
#[derive(Clone, Copy, Debug, PartialEq, Eq, Structural)]
pub enum SeedAssignmentError {
    /// The current Profile is not a seed router
    ProfileCantSeed,
    /// The Profile is out of Net IDs
    NetIdsExhausted,
    /// The source ID requesting the Net ID is unknown to this seed router
    UnknownSource,
    /// An upstream seed router required for delegation is temporarily unavailable
    UpstreamUnavailable,
    /// Another delegation hop would exhaust the refresh timing margin
    DelegationDepthExceeded,
    /// The parent assigned a net_id already used by this bridge
    NetIdCollision,
}

/// A successful node_id claim assignment from a router on a bus-style interface
#[derive(Clone, Copy, Debug, PartialEq)]
pub struct NodeClaimAssignment {
    /// The confirmed node_id
    pub node_id: u8,
    /// The net_id of the interface
    pub net_id: u16,
    /// How many seconds from NOW does the claim expire?
    pub expires_seconds: u16,
    /// Maximum lease duration after refresh
    pub max_refresh_seconds: u16,
    /// Don't refresh until remaining time is less than this
    pub min_refresh_seconds: u16,
    /// Token for later refresh requests
    pub refresh_token: [u8; 8],
}

/// An error occurred when claiming a node_id on a bus-style interface
#[derive(Clone, Copy, Debug, PartialEq, Eq, Structural)]
pub enum AddressClaimError {
    /// The candidate node_id is already claimed by a different device (different nonce)
    Conflict,
    /// The claim table is full
    Exhausted,
    /// The source net_id is unknown to this router
    UnknownSource,
    /// This profile does not support bus address claims
    NotSupported,
    /// The candidate node_id is reserved and cannot be claimed
    /// (0 = "any", CENTRAL_NODE_ID, EDGE_NODE_ID, 255 = broadcast)
    InvalidNodeId,
}

/// An error occurred when refreshing a node_id claim
#[derive(Clone, Copy, Debug, PartialEq, Eq, Structural)]
pub enum AddressRefreshError {
    /// The node_id is not in the claim table
    UnknownNodeId,
    /// The claim has already expired
    AlreadyExpired,
    /// The refresh token or source net_id doesn't match
    BadRequest,
    /// Too soon to refresh
    TooSoon,
    /// This profile does not support bus address claims
    NotSupported,
}

/// An error occurred when refreshing a net ID
#[derive(Clone, Copy, Debug, PartialEq, Eq, Structural)]
pub enum SeedRefreshError {
    /// The current Profile is not a seed router
    ProfileCantSeed,
    /// The requested Net ID to be refreshed is unknown by the Seed Router
    UnknownNetId,
    /// The requested Net ID to be refreshed was not assigned as a Seed Router Net ID
    /// (e.g. it is a Direct Connection and does not require refreshing)
    NotAssigned,
    /// The requested Net ID to refresh has already expired
    AlreadyExpired,
    /// The given data did not match the Seed Router table
    BadRequest,
    /// The request to refresh violated the min_refresh_seconds time
    TooSoon,
    /// An upstream seed router required for delegation is temporarily unavailable
    UpstreamUnavailable,
    /// The refreshed parent lease no longer leaves room for another safe hop
    DelegationDepthExceeded,
}

/// Why a frame could not be sent on an interface.
#[derive(Clone, Copy, Debug, PartialEq, Eq, Structural)]
#[non_exhaustive]
pub enum InterfaceSendError {
    /// Refusing to send local destination remotely
    DestinationLocal,
    /// Profile does not know how to route to requested destination
    NoRouteToDest,
    /// Profile found a destination interface, but that interface
    /// was full in space/slots
    InterfaceFull,
    /// An unhandled internal error occurred, this is a bug.
    InternalError,
    /// Destination was an "any" port, but a key was not provided
    AnyPortMissingKey,
    /// TTL has reached the terminal value
    TtlExpired,
    /// Interface detected that a packet should be routed back to its source
    RoutingLoop,
    /// The serialized frame exceeds the outgoing interface's MTU
    PacketTooBig { mtu: u16 },
}

impl InterfaceSendError {
    /// How the error is reported to the sender of a frame.
    pub open spec fn error(self) -> ProtocolError {
        match self {
            InterfaceSendError::DestinationLocal => ProtocolError::IseDestinationLocal,
            InterfaceSendError::NoRouteToDest => ProtocolError::IseNoRouteToDest,
            InterfaceSendError::InterfaceFull => ProtocolError::IseInterfaceFull,
            InterfaceSendError::InternalError => ProtocolError::IseInternalError,
            InterfaceSendError::AnyPortMissingKey => ProtocolError::IseAnyPortMissingKey,
            InterfaceSendError::TtlExpired => ProtocolError::IseTtlExpired,
            InterfaceSendError::RoutingLoop => ProtocolError::IseRoutingLoop,
            InterfaceSendError::PacketTooBig { mtu } => ProtocolError::IsePacketTooBig { mtu },
        }
    }

    /// How the error is reported to the sender of a frame.
    pub fn to_error(&self) -> (r: ProtocolError)
        ensures
            r == self.error(),
    {
        match self {
            InterfaceSendError::DestinationLocal => ProtocolError::IseDestinationLocal,
            InterfaceSendError::NoRouteToDest => ProtocolError::IseNoRouteToDest,
            InterfaceSendError::InterfaceFull => ProtocolError::IseInterfaceFull,
            InterfaceSendError::InternalError => ProtocolError::IseInternalError,
            InterfaceSendError::AnyPortMissingKey => ProtocolError::IseAnyPortMissingKey,
            InterfaceSendError::TtlExpired => ProtocolError::IseTtlExpired,
            InterfaceSendError::RoutingLoop => ProtocolError::IseRoutingLoop,
            InterfaceSendError::PacketTooBig { mtu } => ProtocolError::IsePacketTooBig {
                mtu: *mtu,
            },
        }
    }
}

/// Each interface error is reported as a protocol error of its own.
pub proof fn interface_errors_distinct(a: InterfaceSendError, b: InterfaceSendError)
    requires
        a.error() == b.error(),
    ensures
        a == b,
{
}

/// An error when deregistering an interface
#[derive(Clone, Copy, Debug, PartialEq, Eq, Structural)]
#[non_exhaustive]
pub enum DeregisterError {
    NoSuchInterface,
}

/// The state of one interface.
#[derive(Clone, Copy, Debug, PartialEq, Eq, Structural)]
pub enum InterfaceState {
    /// Missing sink, no net id
    Down,
    /// Has sink, no net id
    Inactive,
    /// Has sink, has node_id but not net_id
    ActiveLocal { node_id: u8 },
    /// Has sink, has net id
    Active { net_id: u16, node_id: u8 },
}

impl InterfaceState {
    /// The canonical link-local boot state for an edge or bridge-upstream
    /// interface: [`Active`](InterfaceState::Active) with `net_id = 0` and the
    /// reserved [`EDGE_NODE_ID`].
    ///
    /// Such an interface comes up before it knows its net_id. It addresses
    /// link-locally (`net_id = 0`) so it can initiate contact with its peer,
    /// and adopts a real net_id from the first frame the peer addresses to it.
    pub fn edge_link_local() -> (r: InterfaceState)
        ensures
            r == (InterfaceState::Active { net_id: 0, node_id: EDGE_NODE_ID }),
    {
        InterfaceState::Active { net_id: 0, node_id: EDGE_NODE_ID }
    }

    /// The net_id, if the interface has one.
    pub open spec fn net(self) -> Option<u16> {
        match self {
            InterfaceState::Active { net_id, node_id } => Some(net_id),
            _ => None,
        }
    }
}

/// Configuration for opt-in liveness tracking.
///
/// When enabled, the interface transitions on timeout: stream transports go to
/// [`InterfaceState::Inactive`] and recover when frames resume; UDP goes to
/// [`InterfaceState::Down`] and has to be registered again.
#[derive(Clone, Copy, Debug)]
pub struct LivenessConfig {
    /// How long (in milliseconds) without receiving a frame before the
    /// liveness timeout fires.
    pub timeout_ms: u64,
}

/// Why a sink could not be registered.
#[derive(Clone, Copy, Debug, PartialEq, Eq, Structural)]
#[non_exhaustive]
pub enum RegisterSinkError {
    AlreadyActive,
}

/// Why the state of an interface could not be set.
#[derive(Clone, Copy, Debug, PartialEq, Eq, Structural)]
#[non_exhaustive]
pub enum SetStateError {
    InterfaceNotFound,
    InvalidNodeId,
    NetIdInUse,
}

/// What is handed to an interface beside the header.
pub enum Payload {
    /// The serialised body of a message that originates here.
    Message(Seq<u8>),
    /// The serialised body of a message that is passed on.
    Raw(Seq<u8>),
    /// A protocol error.
    Error(ProtocolError),
}

/// The "Sink" side of the interface.
///
/// This is typically held by a profile, and feeds data to the interface's
/// TX worker. Whether a sink takes a frame is for the sink to say.
pub trait InterfaceSink: Sized {
    /// What one send does: whether a sink that was `before` may become `after`
    /// when it is given a frame, having taken it or not.
    spec fn sent(before: Self, after: Self, hdr: Header, what: Payload, taken: bool) -> bool;

    /// The value of [`mtu`](InterfaceSink::mtu).
    spec fn spec_mtu(&self) -> u16;

    /// Returns the maximum total packet size (header + payload) that this
    /// interface can accept for sending.
    ///
    /// If the interface performs internal fragmentation/reassembly, this returns
    /// the max reassembled size, not the raw link frame size.
    fn mtu(&self) -> (r: u16)
        ensures
            r == self.spec_mtu(),
    ;

    /// Hands over a message that originates here.
    fn send_ty(&mut self, hdr: &Header, body: &[u8]) -> (r: Result<(), ()>)
        ensures
            Self::sent(*old(self), *final(self), *hdr, Payload::Message(body@), r is Ok),
    ;

    /// Hands over a message that is passed on.
    fn send_raw(&mut self, hdr: &Header, body: &[u8]) -> (r: Result<(), ()>)
        ensures
            Self::sent(*old(self), *final(self), *hdr, Payload::Raw(body@), r is Ok),
    ;

    /// Hands over a protocol error.
    fn send_err(&mut self, hdr: &Header, err: ProtocolError) -> (r: Result<(), ()>)
        ensures
            Self::sent(*old(self), *final(self), *hdr, Payload::Error(err), r is Ok),
    ;
}

/// Interfaces define how messages are transported over the wire
pub trait Interface {
    /// The Sink is the type used to send messages out of the Profile
    type Sink: InterfaceSink;
}

impl Header {
    /// One hop fewer, or an error where none is left.
    pub open spec fn decremented(self) -> Result<Header, InterfaceSendError> {
        if self.ttl == 0 {
            Err(InterfaceSendError::TtlExpired)
        } else {
            Ok(Header { ttl: (self.ttl - 1) as u8, ..self })
        }
    }

    /// Counts one hop. A header with no hops left stays as it is.
    pub fn decrement_ttl(&mut self) -> (r: Result<(), InterfaceSendError>)
        ensures
            match old(self).decremented() {
                Ok(h) => r is Ok && *final(self) == h,
                Err(e) => r == Err::<(), _>(e) && *final(self) == *old(self),
            },
    {
        if self.ttl == 0 {
            return Err(InterfaceSendError::TtlExpired);
        }
        self.ttl = self.ttl - 1;
        Ok(())
    }
}

/// Every hop takes one from the hop count and changes nothing else; a frame
/// without hops is refused.
pub proof fn hops_count_down(hdr: Header)
    ensures
        hdr.ttl == 0 ==> hdr.decremented() == Err::<Header, _>(InterfaceSendError::TtlExpired),
        hdr.ttl > 0 ==> (hdr.decremented() matches Ok(h) && h.ttl + 1 == hdr.ttl && h == (Header {
            ttl: h.ttl,
            ..hdr
        })),
{
}

/// Only an active interface has a net_id.
pub proof fn active_interfaces_have_a_net(state: InterfaceState, net_id: u16)
    ensures
        state.net() == Some(net_id) <==> exists|node_id: u8|
            state == (InterfaceState::Active { net_id, node_id }),
        state.net() is Some <==> state is Active,
{
    if let InterfaceState::Active { net_id: n, node_id } = state {
        assert(state == (InterfaceState::Active { net_id: n, node_id }));
    }
}

/// One thing that a profile was asked, and what came of it.
#[allow(inconsistent_fields)]
pub enum ProfileStep<Ident> {
    /// A frame was to be sent. A message that originates here has no source.
    Sent { hdr: Header, what: Payload, source: Option<Ident>, r: Result<(), InterfaceSendError> },
    /// The state of an interface was read.
    StateRead { ident: Ident, r: Option<InterfaceState> },
    /// The state of an interface was to be set.
    StateSet { ident: Ident, state: InterfaceState, r: Result<(), SetStateError> },
    /// Whether a node may send on a segment.
    NodeClaimed { net_id: u16, node_id: u8, may_send: bool },
    /// Whether a segment is routed to.
    TransitNet { net_id: u16, routed: bool },
}

/// What identifies an interface.
pub trait Ident: Sized {
    /// The same ident once more.
    fn again(&self) -> (r: Self)
        ensures
            r == *self,
    ;
}

impl Ident for () {
    fn again(&self) -> (r: Self) {
        ()
    }
}

impl Ident for u8 {
    fn again(&self) -> (r: Self) {
        *self
    }
}

impl Ident for u64 {
    fn again(&self) -> (r: Self) {
        *self
    }
}

/// How a program or device handles its external interfaces.
///
/// An interface send is very similar to a socket send, with the exception that
/// interface sends are ALWAYS of serialized bytes.
///
/// What a profile does is for the profile to say, in [`wf`](Profile::wf) and
/// [`step`](Profile::step).
pub trait Profile: Sized {
    /// The kind of type that is used to identify a single interface.
    /// If a Profile only supports a single interface, this is often the `()` type.
    /// If a Profile supports many interfaces, this could be an enum or integer type.
    type InterfaceIdent: Ident;

    /// The invariant of the profile.
    spec fn wf(&self) -> bool;

    /// Whether a profile that was `before` may be `after` once `step` has
    /// happened.
    spec fn step(before: Self, after: Self, step: ProfileStep<Self::InterfaceIdent>) -> bool;

    /// Send a serialized message to the Profile.
    ///
    /// This method should only be used for messages that originate locally
    fn send(&mut self, hdr: &Header, data: &[u8]) -> (r: Result<(), InterfaceSendError>)
        requires
            old(self).wf(),
        ensures
            final(self).wf(),
            Self::step(
                *old(self),
                *final(self),
                (ProfileStep::Sent {
                    hdr: *hdr,
                    what: Payload::Message(data@),
                    source: None::<Self::InterfaceIdent>,
                    r,
                }),
            ),
    ;

    /// Send a protocol error to the Profile
    ///
    /// Errors may originate locally or remotely
    fn send_err(
        &mut self,
        hdr: &Header,
        err: ProtocolError,
        source: Option<Self::InterfaceIdent>,
    ) -> (r: Result<(), InterfaceSendError>)
        requires
            old(self).wf(),
        ensures
            final(self).wf(),
            Self::step(
                *old(self),
                *final(self),
                (ProfileStep::Sent { hdr: *hdr, what: Payload::Error(err), source, r }),
            ),
    ;

    /// Send a pre-serialized message to the Profile.
    ///
    /// This method should only be used for messages that do NOT originate locally
    fn send_raw(&mut self, hdr: &Header, data: &[u8], source: Self::InterfaceIdent) -> (r: Result<
        (),
        InterfaceSendError,
    >)
        requires
            old(self).wf(),
        ensures
            final(self).wf(),
            Self::step(
                *old(self),
                *final(self),
                (ProfileStep::Sent {
                    hdr: *hdr,
                    what: Payload::Raw(data@),
                    source: Some(source),
                    r,
                }),
            ),
    ;

    /// Obtain the interface state of the given interface ident
    ///
    /// Returns None if the given ident is unknown by the Profile
    fn interface_state(&mut self, ident: Self::InterfaceIdent) -> (r: Option<InterfaceState>)
        requires
            old(self).wf(),
        ensures
            final(self).wf(),
            Self::step(*old(self), *final(self), (ProfileStep::StateRead { ident, r })),
    ;

    /// Set the state of the given interface ident
    fn set_interface_state(&mut self, ident: Self::InterfaceIdent, state: InterfaceState) -> (r:
        Result<(), SetStateError>)
        requires
            old(self).wf(),
        ensures
            final(self).wf(),
            Self::step(*old(self), *final(self), (ProfileStep::StateSet { ident, state, r })),
    ;

    /// Check if a node_id is valid (claimed) on the given net_id.
    ///
    /// Returns `true` if the node_id is allowed to send frames on this
    /// interface. A profile without a claim table accepts only the
    /// point-to-point roles, see [`point_to_point_role`].
    fn is_node_claimed(&mut self, net_id: u16, node_id: u8) -> (r: bool)
        requires
            old(self).wf(),
        ensures
            final(self).wf(),
            Self::step(*old(self), *final(self), (ProfileStep::NodeClaimed { net_id, node_id, may_send: r })),
    ;

    /// Check whether `net_id` names a segment this profile already routes to:
    /// a frame addressed there that arrives on one of our interfaces is
    /// *transit* traffic passing through, not traffic addressed to this
    /// device's own segment. A profile without transit says `false`.
    fn is_transit_net(&mut self, net_id: u16) -> (r: bool)
        requires
            old(self).wf(),
        ensures
            final(self).wf(),
            Self::step(*old(self), *final(self), (ProfileStep::TransitNet { net_id, routed: r })),
    ;

    /// Request a Net ID assignment from this profile
    ///
    /// For Profiles that are not (currently acting as) a Seed Router, this
    /// method will always return an error.
    fn request_seed_net_assign(&mut self, source_net: u16) -> (r: Result<
        SeedNetAssignment,
        SeedAssignmentError,
    >)
        requires
            old(self).wf(),
        ensures
            final(self).wf(),
        default_ensures
            *final(self) == *old(self),
            r == Err::<SeedNetAssignment, _>(SeedAssignmentError::ProfileCantSeed),
    {
        Err(SeedAssignmentError::ProfileCantSeed)
    }

    /// Reassign a downstream interface's net_id.
    ///
    /// Used by bridge seed routing clients after receiving a globally-routable
    /// net_id from a seed router. Not all profiles support this: the default
    /// returns [`SetStateError::InterfaceNotFound`].
    fn reassign_interface_net_id(&mut self, ident: Self::InterfaceIdent, new_net_id: u16) -> (r:
        Result<(), SetStateError>)
        requires
            old(self).wf(),
        ensures
            final(self).wf(),
        default_ensures
            *final(self) == *old(self),
            r == Err::<(), _>(SetStateError::InterfaceNotFound),
    {
        Err(SetStateError::InterfaceNotFound)
    }

    /// Request a node_id claim on a bus-style interface.
    ///
    /// `source_net` is the net_id of the interface the request came from.
    /// `candidate` is the requested node_id, `nonce` is a random tiebreaker.
    fn request_node_claim(&mut self, source_net: u16, candidate: u8, nonce: u64) -> (r: Result<
        NodeClaimAssignment,
        AddressClaimError,
    >)
        requires
            old(self).wf(),
        ensures
            final(self).wf(),
        default_ensures
            *final(self) == *old(self),
            r == Err::<NodeClaimAssignment, _>(AddressClaimError::NotSupported),
    {
        Err(AddressClaimError::NotSupported)
    }

    /// Refresh an existing node_id claim.
    fn refresh_node_claim(&mut self, source_net: u16, node_id: u8, refresh_token: [u8; 8]) -> (r:
        Result<NodeClaimAssignment, AddressRefreshError>)
        requires
            old(self).wf(),
        ensures
            final(self).wf(),
        default_ensures
            *final(self) == *old(self),
            r == Err::<NodeClaimAssignment, _>(AddressRefreshError::NotSupported),
    {
        Err(AddressRefreshError::NotSupported)
    }

    /// If this profile should *delegate* seed assignments to an upstream seed
    /// router (i.e. it is a bridge), returns the upstream interface.
    ///
    /// When this returns `Some`, the seed handler forwards assignment and
    /// refresh requests up the tree instead of allocating from a local pool,
    /// so the root remains the single owner of the net-id space.
    fn seed_delegation_upstream(&self) -> (r: Option<Self::InterfaceIdent>)
        requires
            self.wf(),
        default_ensures
            r is None,
    {
        None
    }

    /// Pre-flight check, run *before* a net_id is leased from the upstream
    /// seed router: verify `source_net` is a known direct downstream and there
    /// is room to register a delegated route, so that a doomed request is
    /// rejected without stranding an upstream lease.
    fn can_delegate_seed(&mut self, source_net: u16) -> (r: Result<(), SeedAssignmentError>)
        requires
            old(self).wf(),
        ensures
            final(self).wf(),
        default_ensures
            *final(self) == *old(self),
            r == Err::<(), _>(SeedAssignmentError::ProfileCantSeed),
    {
        Err(SeedAssignmentError::ProfileCantSeed)
    }

    /// Register a seed route leased from the upstream seed router on behalf of
    /// the requester reachable via the interface serving `source_net`.
    fn register_delegated_seed_net(&mut self, source_net: u16, parent: &SeedLease) -> (r: Result<
        SeedNetAssignment,
        SeedAssignmentError,
    >)
        requires
            old(self).wf(),
        ensures
            final(self).wf(),
        default_ensures
            *final(self) == *old(self),
            r == Err::<SeedNetAssignment, _>(SeedAssignmentError::ProfileCantSeed),
    {
        Err(SeedAssignmentError::ProfileCantSeed)
    }

    /// Validate a delegated refresh request. A current token returns the stored
    /// parent lease for forwarding; the immediately previous token replays the
    /// last committed response after response loss. Called before upstream I/O,
    /// so a bad requester or token cannot trigger traffic to the parent router.
    fn prepare_delegated_refresh(
        &mut self,
        source_net: u16,
        refresh_net: u16,
        refresh_token: [u8; 8],
    ) -> (r: Result<DelegatedRefreshPreparation, SeedRefreshError>)
        requires
            old(self).wf(),
        ensures
            final(self).wf(),
        default_ensures
            *final(self) == *old(self),
            r == Err::<DelegatedRefreshPreparation, _>(SeedRefreshError::ProfileCantSeed),
    {
        Err(SeedRefreshError::ProfileCantSeed)
    }

    /// Commit an upstream refresh: replace the stored parent lease, extend the
    /// delegated route, and rotate the downstream token. The old token is
    /// checked again so an async refresh cannot commit into a changed route.
    fn commit_delegated_refresh(
        &mut self,
        source_net: u16,
        refresh_token: [u8; 8],
        refreshed_parent: &SeedLease,
    ) -> (r: Result<SeedNetAssignment, SeedRefreshError>)
        requires
            old(self).wf(),
        ensures
            final(self).wf(),
        default_ensures
            *final(self) == *old(self),
            r == Err::<SeedNetAssignment, _>(SeedRefreshError::ProfileCantSeed),
    {
        Err(SeedRefreshError::ProfileCantSeed)
    }

    /// Validate a delegated release and return the parent lease that must be
    /// released before the local route is removed.
    fn prepare_delegated_release(
        &mut self,
        source_net: u16,
        release_net: u16,
        refresh_token: [u8; 8],
    ) -> (r: Result<SeedLease, SeedRefreshError>)
        requires
            old(self).wf(),
        ensures
            final(self).wf(),
        default_ensures
            *final(self) == *old(self),
            r == Err::<SeedLease, _>(SeedRefreshError::ProfileCantSeed),
    {
        Err(SeedRefreshError::ProfileCantSeed)
    }

    /// Remove a delegated route after its parent lease was released.
    fn commit_delegated_release(
        &mut self,
        source_net: u16,
        release_net: u16,
        refresh_token: [u8; 8],
    ) -> (r: Result<(), SeedRefreshError>)
        requires
            old(self).wf(),
        ensures
            final(self).wf(),
        default_ensures
            *final(self) == *old(self),
            r == Err::<(), _>(SeedRefreshError::ProfileCantSeed),
    {
        Err(SeedRefreshError::ProfileCantSeed)
    }

    /// Explicitly release a root-owned seed assignment.
    fn release_seed_net_assignment(
        &mut self,
        source_net: u16,
        release_net: u16,
        refresh_token: [u8; 8],
    ) -> (r: Result<(), SeedRefreshError>)
        requires
            old(self).wf(),
        ensures
            final(self).wf(),
        default_ensures
            *final(self) == *old(self),
            r == Err::<(), _>(SeedRefreshError::ProfileCantSeed),
    {
        Err(SeedRefreshError::ProfileCantSeed)
    }

    /// Request the refresh of a Net ID assignment from this profile
    ///
    /// For Profiles that are not (currently acting as) a Seed Router, this
    /// method will always return an error.
    fn refresh_seed_net_assignment(
        &mut self,
        source_net: u16,
        refresh_net: u16,
        refresh_token: [u8; 8],
    ) -> (r: Result<SeedNetAssignment, SeedRefreshError>)
        requires
            old(self).wf(),
        ensures
            final(self).wf(),
        default_ensures
            *final(self) == *old(self),
            r == Err::<SeedNetAssignment, _>(SeedRefreshError::ProfileCantSeed),
    {
        Err(SeedRefreshError::ProfileCantSeed)
    }
}

/// Whether a node_id is one of the two ends of a point-to-point link.
pub fn point_to_point_role(node_id: u8) -> (r: bool)
    ensures
        r == (node_id == CENTRAL_NODE_ID || node_id == EDGE_NODE_ID),
{
    node_id == CENTRAL_NODE_ID || node_id == EDGE_NODE_ID
}

/// Profile-specific frame processing logic.
///
/// Implemented for each profile to handle decoded frames from any transport
/// (USB, serial, TCP, etc.). Transport workers are generic over this trait, so
/// each transport is written once and works with every profile.
pub trait FrameProcessor<P: Profile>: Sized {
    /// What processing one frame does to the processor and to the stack.
    spec fn processed(
        before: Self,
        after: Self,
        stack_before: NetStack<P>,
        stack_after: NetStack<P>,
        data: Seq<u8>,
        ident: P::InterfaceIdent,
        changed: bool,
    ) -> bool;

    /// The processor after a reset.
    spec fn after_reset(self) -> Self;

    /// Process a raw decoded frame.
    ///
    /// `ident` is the interface identifier, provided by the transport. Returns
    /// `true` if the interface state changed (e.g., `Inactive` to `Active`),
    /// signaling the transport to notify state observers.
    fn process_frame(&mut self, data: &[u8], stack: &mut NetStack<P>, ident: P::InterfaceIdent) -> (changed:
        bool)
        requires
            old(stack).wf(),
        ensures
            final(stack).wf(),
            Self::processed(
                *old(self),
                *final(self),
                *old(stack),
                *final(stack),
                data@,
                ident,
                changed,
            ),
    ;

    /// Reset internal state after a timeout or suspend event.
    ///
    /// Called when liveness timeout or USB suspend causes the interface to
    /// transition to `Inactive`, so that the next frame triggers re-discovery.
    fn reset(&mut self)
        ensures
            *final(self) == old(self).after_reset(),
    ;
}

/// A received frame was passed to the stack: a message to be sent on, or an
/// error.
pub open spec fn passed_on<P: Profile>(
    before: NetStack<P>,
    after: NetStack<P>,
    hdr: Header,
    content: Result<Seq<u8>, ProtocolError>,
    ident: P::InterfaceIdent,
    r: Result<(), NetStackSendError>,
) -> bool {
    match content {
        Ok(body) => net_stack::message_sent(before, after, hdr, Payload::Raw(body), Some(ident), r),
        Err(err) => net_stack::error_sent(before, after, hdr, err, Some(ident), r),
    }
}

} // verus!

//! Unified Router profile
//!
//! Manages up to `N` directly connected downstream (edge) devices, with up to
//! `S` additional seed-assigned routes for bridge devices, and up to `C` node
//! addresses claimed on its buses.
//!
//! What each operation does stands in [`router_model`](super::router_model);
//! the time at which it happens is the router's own clock's, and new tokens are
//! drawn from its random number generator.

use vstd::prelude::*;
use crate::clock;
use crate::clock::{Clock, Closer, TokenSource};
use crate::interface_manager::edge_port::{EdgePort, CENTRAL_NODE_ID, EDGE_NODE_ID};
use crate::interface_manager::leases;
use crate::interface_manager::leases::Nanos;
use crate::interface_manager::profiles::router_model as model;
use crate::interface_manager::profiles::router_model::{RouterView, UpstreamPort};
use crate::interface_manager::profiles::router_state::RouterState;
use crate::interface_manager::{
    AddressClaimError, AddressRefreshError, DelegatedRefreshPreparation, Interface,
    InterfaceSendError, InterfaceState, NodeClaimAssignment, Profile, ProfileStep,
    SeedAssignmentError, SeedLease, SeedNetAssignment, SeedRefreshError, SetStateError,
};
use crate::{Header, ProtocolError};

pub use crate::interface_manager::profiles::router_frames::{process_frame, RouterFrameProcessor};
pub use crate::interface_manager::profiles::router_model::{
    DeregisterError, RegisterError, UPSTREAM_IDENT,
};

verus! {

/// A router profile with seed router capability and optional upstream.
///
/// - `I`: Interface type
/// - `R`: where refresh tokens come from
/// - `N`: Maximum number of directly connected downstream interfaces
/// - `S`: Maximum number of seed-assigned routes (for bridge downstream networks)
/// - `C`: Maximum number of bus-style node_id claims (address claim protocol)
///
/// **Root mode** ([`new`](Router::new)): no upstream, acts as a seed router.
/// **Bridge mode** ([`new_bridge`](Router::new_bridge)): has an upstream
/// interface, forwards unroutable traffic upstream. The upstream discovers its
/// net_id from incoming frames.
pub struct Router<I: Interface, R: TokenSource, const N: usize, const S: usize, const C: usize> {
    pub state: RouterState<I, N, S, C>,
    pub rng: R,
    pub clock: Clock,
}

impl<I: Interface, R: TokenSource, const N: usize, const S: usize, const C: usize> View for Router<
    I,
    R,
    N,
    S,
    C,
> {
    type V = RouterView<I>;

    open spec fn view(&self) -> RouterView<I> {
        self.state@
    }
}

/// What a router looks like before anything is connected to it.
pub open spec fn unconnected<I: Interface>() -> RouterView<I> {
    RouterView {
        slots: Seq::empty(),
        seeds: Seq::empty(),
        claims: Seq::empty(),
        upstream: None,
        claimed_at: 0,
    }
}

/// At a time that the clock showed, whether a node may send on a bus is
/// answered by `may_send`.
pub open spec fn claimed_sometime<I: Interface>(
    clock: Clock,
    v: RouterView<I>,
    net_id: u16,
    node_id: u8,
    may_send: bool,
) -> bool {
    exists|now: Nanos|
        clock.shows(now) && may_send == #[trigger] model::node_claimed(v, net_id, node_id, now)
}

/// At a time that the clock showed, whether a net is routed to is answered by
/// `routed`.
pub open spec fn transit_sometime<I: Interface>(
    clock: Clock,
    before: RouterView<I>,
    after: RouterView<I>,
    net_id: u16,
    routed: bool,
) -> bool {
    exists|now: Nanos|
        clock.shows(now) && (after, routed) == #[trigger] model::transit(before, net_id, now)
}

/// A bridge's upstream before it is brought up.
pub open spec fn quiet_upstream<I: Interface>(sink: I::Sink) -> UpstreamPort<I> {
    UpstreamPort {
        port: EdgePort {
            sink,
            state: InterfaceState::Down,
            own_node_id: EDGE_NODE_ID,
            other_node_id: CENTRAL_NODE_ID,
        },
        closer: None,
    }
}

impl<I: Interface, R: TokenSource, const N: usize, const S: usize, const C: usize> Router<
    I,
    R,
    N,
    S,
    C,
> {
    /// Create a new root router (no upstream) with the given RNG. Idents are
    /// single bytes, so there are at most 255 interfaces.
    pub fn new(rng: R) -> (r: Self)
        requires
            N <= 255,
        ensures
            r.wf(),
            r@ == unconnected::<I>(),
            r.rng == rng,
            r.clock.started(),
    {
        Router { state: RouterState::new(), rng, clock: Clock::new() }
    }

    /// Create a new bridge router with an upstream interface.
    ///
    /// The upstream interface starts in [`InterfaceState::Down`] and discovers
    /// its net_id from incoming frames. Use [`UPSTREAM_IDENT`] for it.
    pub fn new_bridge(rng: R, upstream_sink: I::Sink) -> (r: Self)
        requires
            N <= 255,
        ensures
            r.wf(),
            r@ == (RouterView { upstream: Some(quiet_upstream(upstream_sink)), ..unconnected::<I>()
            }),
            r.rng == rng,
            r.clock.started(),
    {
        Router { state: RouterState::new_bridge(upstream_sink), rng, clock: Clock::new() }
    }

    /// Returns `true` if this router has an upstream interface (bridge mode).
    pub fn has_upstream(&self) -> (r: bool)
        ensures
            r == (self@.upstream is Some),
    {
        self.state.has_upstream()
    }

    /// Register a new downstream interface.
    ///
    /// Assigns the lowest free ident and the lowest free net_id. The interface
    /// starts in [`InterfaceState::Active`] with [`CENTRAL_NODE_ID`] as the
    /// local node.
    ///
    /// Fails with [`RegisterError::BridgeRequiresSeedAssignment`] if this
    /// router has an upstream (i.e. it is acting as a bridge). A bridge must
    /// not self-allocate net_ids for its downstream segments, which would
    /// collide with the root-owned numbering, so it registers downstream
    /// interfaces with
    /// [`register_interface_pending`](Self::register_interface_pending) and
    /// obtains a routable net_id from a seed router instead.
    pub fn register_interface(&mut self, sink: I::Sink) -> (r: Result<u8, RegisterError>)
        requires
            old(self).wf(),
        ensures
            final(self).wf(),
            final(self).rng == old(self).rng,
            final(self).clock == old(self).clock,
            exists|now: Nanos|
                {
                    &&& old(self).clock.shows(now)
                    &&& (final(self)@, r) == #[trigger] model::registered(
                        old(self)@,
                        sink,
                        N as nat,
                        now,
                    )
                },
    {
        let ghost before = self@;
        let now: Nanos = self.clock.now();
        assert(self.clock.shows(now));
        let r = self.state.register_interface(sink, now);
        assert((self@, r) == model::registered(before, sink, N as nat, now));
        r
    }

    /// Register a new downstream interface without assigning a net_id.
    ///
    /// The interface starts in [`InterfaceState::Down`] with `net_id = 0`. Use
    /// [`reassign_interface_net_id`](Profile::reassign_interface_net_id) to
    /// assign a globally-routable net_id from a seed router.
    pub fn register_interface_pending(&mut self, sink: I::Sink) -> (r: Result<u8, RegisterError>)
        requires
            old(self).wf(),
        ensures
            final(self).wf(),
            final(self).rng == old(self).rng,
            final(self).clock == old(self).clock,
            (final(self)@, r) == model::registered_pending(old(self)@, sink, N as nat),
    {
        self.state.register_interface_pending(sink)
    }

    /// Remove a downstream interface by ident.
    ///
    /// Also tombstones any seed routes reachable through this interface, and
    /// drops any bus node_id claims scoped to its net_id (the segment is gone,
    /// and its net_id may be reused).
    pub fn deregister_interface(&mut self, ident: u8) -> (r: Result<(), DeregisterError>)
        requires
            old(self).wf(),
        ensures
            final(self).wf(),
            final(self).rng == old(self).rng,
            final(self).clock == old(self).clock,
            exists|now: Nanos|
                {
                    &&& old(self).clock.shows(now)
                    &&& (final(self)@, r) == #[trigger] model::deregistered(old(self)@, ident, now)
                },
            model::closer_of(old(self)@, ident) matches Some(c) ==> c.told_to_stop(),
    {
        let ghost before = self@;
        let now: Nanos = self.clock.now();
        assert(self.clock.shows(now));
        let r = self.state.deregister_interface(ident, now);
        assert((self@, r) == model::deregistered(before, ident, now));
        r
    }

    /// Get the net_id for a given ident, if it exists.
    pub fn net_id_of(&self, ident: u8) -> (r: Option<u16>)
        ensures
            r == (match model::slot_of_ident(self@.slots, ident) {
                Some(pos) => Some(self@.slots[pos].net_id),
                None => None,
            }),
    {
        self.state.net_id_of(ident)
    }

    /// Store a closer for an interface, so that workers are notified when the
    /// interface is deregistered.
    pub fn set_interface_closer(&mut self, ident: u8, closer: Closer)
        requires
            old(self).wf(),
        ensures
            final(self).wf(),
            final(self).rng == old(self).rng,
            final(self).clock == old(self).clock,
            final(self)@ == RouterState::<I, N, S, C>::with_closer(old(self)@, ident, closer),
    {
        self.state.set_interface_closer(ident, closer)
    }

    /// Return active net_ids.
    pub fn get_nets(&self) -> (r: Vec<u16>)
        ensures
            r@ == model::active_nets(self@.slots, self@.slots.len()),
    {
        self.state.get_nets()
    }
}

impl<I: Interface, const N: usize, const S: usize, const C: usize> Router<
    I,
    rand::rngs::StdRng,
    N,
    S,
    C,
> {
    /// Create a new root router using a randomly-seeded StdRng, if the operating
    /// system has entropy to seed one.
    pub fn new_std() -> (r: Option<Self>)
        requires
            N <= 255,
        ensures
            exists|rng: Option<rand::rngs::StdRng>|
                {
                    &&& #[trigger] clock::os_seeded(rng)
                    &&& match rng {
                        Some(rng) => r matches Some(router) && router.wf() && router@
                            == unconnected::<I>() && router.rng == rng && router.clock.started(),
                        None => r is None,
                    }
                },
    {
        let rng = clock::std_rng_from_os();
        assert(clock::os_seeded(rng));
        match rng {
            Some(rng) => Some(Self::new(rng)),
            None => None,
        }
    }

    /// Create a new bridge router with upstream, using a randomly-seeded StdRng,
    /// if the operating system has entropy to seed one.
    pub fn new_bridge_std(upstream_sink: I::Sink) -> (r: Option<Self>)
        requires
            N <= 255,
        ensures
            exists|rng: Option<rand::rngs::StdRng>|
                {
                    &&& #[trigger] clock::os_seeded(rng)
                    &&& match rng {
                        Some(rng) => r matches Some(router) && router.wf() && router@ == (
                        RouterView {
                            upstream: Some(quiet_upstream(upstream_sink)),
                            ..unconnected::<I>()
                        }) && router.rng == rng && router.clock.started(),
                        None => r is None,
                    }
                },
    {
        let rng = clock::std_rng_from_os();
        assert(clock::os_seeded(rng));
        match rng {
            Some(rng) => Some(Self::new_bridge(rng, upstream_sink)),
            None => None,
        }
    }
}

impl<I: Interface, R: TokenSource, const N: usize, const S: usize, const C: usize> Profile for Router<
    I,
    R,
    N,
    S,
    C,
> {
    type InterfaceIdent = u8;

    /// The invariant of a router, see [`model::router_wf`].
    open spec fn wf(&self) -> bool {
        self.state.wf()
    }

    open spec fn step(before: Self, after: Self, step: ProfileStep<u8>) -> bool {
        &&& after.rng == before.rng
        &&& after.clock == before.clock
        &&& match step {
            ProfileStep::Sent { hdr, what, source, r } => exists|now: Nanos|
                before.clock.shows(now) && #[trigger] model::sent(
                    before@,
                    after@,
                    hdr,
                    what,
                    source,
                    now,
                    r,
                ),
            ProfileStep::StateRead { ident, r } => after@ == before@ && r == model::state_of(
                before@,
                ident,
            ),
            ProfileStep::StateSet { ident, state, r } => (after@, r) == model::state_set(
                before@,
                ident,
                state,
            ),
            ProfileStep::NodeClaimed { net_id, node_id, may_send } => after@ == before@
                && claimed_sometime(before.clock, before@, net_id, node_id, may_send),
            ProfileStep::TransitNet { net_id, routed } => transit_sometime(
                before.clock,
                before@,
                after@,
                net_id,
                routed,
            ),
        }
    }

    fn send(&mut self, hdr: &Header, data: &[u8]) -> (r: Result<(), InterfaceSendError>) {
        let now: Nanos = self.clock.now();
        assert(self.clock.shows(now));
        self.state.send(hdr, data, now)
    }

    fn send_err(&mut self, hdr: &Header, err: ProtocolError, source: Option<u8>) -> (r: Result<
        (),
        InterfaceSendError,
    >) {
        let now: Nanos = self.clock.now();
        assert(self.clock.shows(now));
        self.state.send_err(hdr, err, source, now)
    }

    fn send_raw(&mut self, hdr: &Header, data: &[u8], source: u8) -> (r: Result<
        (),
        InterfaceSendError,
    >) {
        let now: Nanos = self.clock.now();
        assert(self.clock.shows(now));
        self.state.send_raw(hdr, data, source, now)
    }

    fn interface_state(&mut self, ident: u8) -> (r: Option<InterfaceState>) {
        self.state.interface_state(ident)
    }

    fn set_interface_state(&mut self, ident: u8, state: InterfaceState) -> (r: Result<
        (),
        SetStateError,
    >) {
        self.state.set_interface_state(ident, state)
    }

    fn is_node_claimed(&mut self, net_id: u16, node_id: u8) -> (r: bool) {
        let ghost before = self@;
        let now: Nanos = self.clock.now();
        assert(self.clock.shows(now));
        let r = self.state.is_node_claimed(net_id, node_id, now);
        assert(claimed_sometime(self.clock, before, net_id, node_id, r));
        r
    }

    fn is_transit_net(&mut self, net_id: u16) -> (r: bool) {
        let ghost before = self@;
        let now: Nanos = self.clock.now();
        assert(self.clock.shows(now));
        let r = self.state.is_transit_net(net_id, now);
        assert(transit_sometime(self.clock, before, self@, net_id, r));
        r
    }

    fn reassign_interface_net_id(&mut self, ident: u8, new_net_id: u16) -> (r: Result<
        (),
        SetStateError,
    >)
        ensures
            final(self).rng == old(self).rng,
            final(self).clock == old(self).clock,
            (final(self)@, r) == model::reassigned(old(self)@, ident, new_net_id),
    {
        self.state.reassign_interface_net_id(ident, new_net_id)
    }

    fn request_seed_net_assign(&mut self, source_net: u16) -> (r: Result<
        SeedNetAssignment,
        SeedAssignmentError,
    >)
        ensures
            final(self).clock == old(self).clock,
            exists|now: Nanos, token: u64|
                {
                    &&& old(self).clock.shows(now)
                    &&& (final(self)@, r) == #[trigger] model::seed_assigned(
                        old(self)@,
                        source_net,
                        S as nat,
                        now,
                        token,
                    )
                    &&& clock::drawn_if(old(self).rng, final(self).rng, token, r is Ok)
                },
    {
        let ghost before = self@;
        let now: Nanos = self.clock.now();
        assert(self.clock.shows(now));
        let ghost rng = self.rng;
        let r = self.state.request_seed_net_assign(source_net, now, &mut self.rng);
        proof {
            let token = choose|token: u64|
                {
                    &&& (self@, r) == #[trigger] model::seed_assigned(before, source_net, S as nat, now, token)
                    &&& clock::drawn_if(rng, self.rng, token, r is Ok)
                };
            assert((self@, r) == model::seed_assigned(before, source_net, S as nat, now, token));
        }
        r
    }

    fn seed_delegation_upstream(&self) -> (r: Option<u8>)
        ensures
            r == (if self@.upstream is Some {
                Some(UPSTREAM_IDENT)
            } else {
                None
            }),
    {
        if self.has_upstream() {
            Some(UPSTREAM_IDENT)
        } else {
            None
        }
    }

    fn can_delegate_seed(&mut self, source_net: u16) -> (r: Result<(), SeedAssignmentError>)
        ensures
            final(self).rng == old(self).rng,
            final(self).clock == old(self).clock,
            exists|now: Nanos|
                {
                    &&& old(self).clock.shows(now)
                    &&& (final(self)@, r) == #[trigger] model::delegation_possible(
                        old(self)@,
                        source_net,
                        S as nat,
                        now,
                    )
                },
    {
        let ghost before = self@;
        let now: Nanos = self.clock.now();
        assert(self.clock.shows(now));
        let r = self.state.can_delegate_seed(source_net, now);
        assert((self@, r) == model::delegation_possible(before, source_net, S as nat, now));
        r
    }

    fn register_delegated_seed_net(&mut self, source_net: u16, parent: &SeedLease) -> (r: Result<
        SeedNetAssignment,
        SeedAssignmentError,
    >)
        ensures
            final(self).clock == old(self).clock,
            exists|now: Nanos, token: u64|
                {
                    &&& old(self).clock.shows(now)
                    &&& (final(self)@, r) == #[trigger] model::delegation_registered(
                        old(self)@,
                        source_net,
                        *parent,
                        S as nat,
                        now,
                        token,
                    )
                    &&& clock::drawn_if(old(self).rng, final(self).rng, token, r is Ok)
                },
    {
        let ghost before = self@;
        let now: Nanos = self.clock.now();
        assert(self.clock.shows(now));
        let ghost rng = self.rng;
        let r = self.state.register_delegated_seed_net(source_net, parent, now, &mut self.rng);
        proof {
            let token = choose|token: u64|
                {
                    &&& (self@, r) == #[trigger] model::delegation_registered(before, source_net, *parent, S as nat, now, token)
                    &&& clock::drawn_if(rng, self.rng, token, r is Ok)
                };
            assert((self@, r) == model::delegation_registered(before, source_net, *parent, S as nat, now, token));
        }
        r
    }

    fn prepare_delegated_refresh(
        &mut self,
        source_net: u16,
        refresh_net: u16,
        refresh_token: [u8; 8],
    ) -> (r: Result<DelegatedRefreshPreparation, SeedRefreshError>)
        ensures
            final(self).rng == old(self).rng,
            final(self).clock == old(self).clock,
            exists|now: Nanos|
                {
                    &&& old(self).clock.shows(now)
                    &&& (final(self)@, r) == #[trigger] model::refresh_prepared(
                        old(self)@,
                        source_net,
                        refresh_net,
                        leases::token_of(refresh_token),
                        now,
                    )
                },
    {
        let ghost before = self@;
        let now: Nanos = self.clock.now();
        assert(self.clock.shows(now));
        let r = self.state.prepare_delegated_refresh(source_net, refresh_net, refresh_token, now);
        assert((self@, r) == model::refresh_prepared(before, source_net, refresh_net, leases::token_of(refresh_token), now));
        r
    }

    fn commit_delegated_refresh(
        &mut self,
        source_net: u16,
        refresh_token: [u8; 8],
        refreshed_parent: &SeedLease,
    ) -> (r: Result<SeedNetAssignment, SeedRefreshError>)
        ensures
            final(self).clock == old(self).clock,
            exists|now: Nanos, token: u64|
                {
                    &&& old(self).clock.shows(now)
                    &&& (final(self)@, r) == #[trigger] model::refresh_committed(
                        old(self)@,
                        source_net,
                        leases::token_of(refresh_token),
                        *refreshed_parent,
                        now,
                        token,
                    )
                    &&& clock::drawn_if(
                        old(self).rng,
                        final(self).rng,
                        token,
                        r != Err::<SeedNetAssignment, _>(
                            SeedRefreshError::DelegationDepthExceeded,
                        ),
                    )
                },
    {
        let ghost before = *self;
        let now: Nanos = self.clock.now();
        assert(self.clock.shows(now));
        let mut new_token: u64 = 0;
        if refreshed_parent.min_refresh_seconds > model::SEED_DELEGATION_REFRESH_MARGIN {
            new_token = self.rng.next_u64();
        }
        let r = self.state.commit_delegated_refresh(
            source_net,
            refresh_token,
            refreshed_parent,
            now,
            new_token,
        );
        assert((self@, r) == model::refresh_committed(
            before@,
            source_net,
            leases::token_of(refresh_token),
            *refreshed_parent,
            now,
            new_token,
        ));
        r
    }

    fn prepare_delegated_release(
        &mut self,
        source_net: u16,
        release_net: u16,
        refresh_token: [u8; 8],
    ) -> (r: Result<SeedLease, SeedRefreshError>)
        ensures
            final(self).rng == old(self).rng,
            final(self).clock == old(self).clock,
            exists|now: Nanos|
                {
                    &&& old(self).clock.shows(now)
                    &&& (final(self)@, r) == #[trigger] model::release_prepared(
                        old(self)@,
                        source_net,
                        release_net,
                        leases::token_of(refresh_token),
                        now,
                    )
                },
    {
        let ghost before = self@;
        let now: Nanos = self.clock.now();
        assert(self.clock.shows(now));
        let r = self.state.prepare_delegated_release(source_net, release_net, refresh_token, now);
        assert((self@, r) == model::release_prepared(before, source_net, release_net, leases::token_of(refresh_token), now));
        r
    }

    fn commit_delegated_release(
        &mut self,
        source_net: u16,
        release_net: u16,
        refresh_token: [u8; 8],
    ) -> (r: Result<(), SeedRefreshError>)
        ensures
            final(self).rng == old(self).rng,
            final(self).clock == old(self).clock,
            exists|now: Nanos|
                {
                    &&& old(self).clock.shows(now)
                    &&& (final(self)@, r) == #[trigger] model::released(
                        old(self)@,
                        source_net,
                        release_net,
                        leases::token_of(refresh_token),
                        now,
                    )
                },
    {
        let ghost before = self@;
        let now: Nanos = self.clock.now();
        assert(self.clock.shows(now));
        let r = self.state.commit_delegated_release(source_net, release_net, refresh_token, now);
        assert((self@, r) == model::released(before, source_net, release_net, leases::token_of(refresh_token), now));
        r
    }

    fn release_seed_net_assignment(
        &mut self,
        source_net: u16,
        release_net: u16,
        refresh_token: [u8; 8],
    ) -> (r: Result<(), SeedRefreshError>)
        ensures
            final(self).rng == old(self).rng,
            final(self).clock == old(self).clock,
            exists|now: Nanos|
                {
                    &&& old(self).clock.shows(now)
                    &&& (final(self)@, r) == model::released(
                        #[trigger] model::with_seeds_aged(old(self)@, now),
                        source_net,
                        release_net,
                        leases::token_of(refresh_token),
                        now,
                    )
                },
    {
        let ghost before = self@;
        let now: Nanos = self.clock.now();
        assert(self.clock.shows(now));
        let r = self.state.release_seed_net_assignment(source_net, release_net, refresh_token, now);
        assert((self@, r) == model::released(model::with_seeds_aged(before, now), source_net, release_net, leases::token_of(refresh_token), now));
        r
    }

    fn refresh_seed_net_assignment(
        &mut self,
        source_net: u16,
        refresh_net: u16,
        refresh_token: [u8; 8],
    ) -> (r: Result<SeedNetAssignment, SeedRefreshError>)
        ensures
            final(self).clock == old(self).clock,
            exists|now: Nanos, token: u64|
                {
                    &&& old(self).clock.shows(now)
                    &&& (final(self)@, r) == #[trigger] model::seed_refreshed(
                        old(self)@,
                        source_net,
                        refresh_net,
                        leases::token_of(refresh_token),
                        now,
                        token,
                    )
                    &&& R::drew(old(self).rng, final(self).rng, token)
                },
    {
        let ghost before = self@;
        let new_token: u64 = self.rng.next_u64();
        let now: Nanos = self.clock.now();
        assert(self.clock.shows(now));
        let r = self.state.refresh_seed_net_assignment(
            source_net,
            refresh_net,
            refresh_token,
            now,
            new_token,
        );
        assert((self@, r) == model::seed_refreshed(before, source_net, refresh_net, leases::token_of(refresh_token), now, new_token));
        r
    }

    fn request_node_claim(&mut self, source_net: u16, candidate: u8, nonce: u64) -> (r: Result<
        NodeClaimAssignment,
        AddressClaimError,
    >)
        ensures
            final(self).clock == old(self).clock,
            exists|now: Nanos, token: u64|
                {
                    &&& old(self).clock.shows(now)
                    &&& (final(self)@, r) == #[trigger] model::claimed(
                        old(self)@,
                        source_net,
                        candidate,
                        nonce,
                        C as nat,
                        now,
                        token,
                    )
                    &&& clock::drawn_if(
                        old(self).rng,
                        final(self).rng,
                        token,
                        model::claim_is_new(
                            old(self)@,
                            source_net,
                            candidate,
                            nonce,
                            C as nat,
                            now,
                        ),
                    )
                },
    {
        let ghost before = self@;
        let now: Nanos = self.clock.now();
        assert(self.clock.shows(now));
        let ghost rng = self.rng;
        let r = self.state.request_node_claim(source_net, candidate, nonce, now, &mut self.rng);
        proof {
            let token = choose|token: u64|
                {
                    &&& (self@, r) == #[trigger] model::claimed(before, source_net, candidate, nonce, C as nat, now, token)
                    &&& clock::drawn_if(rng, self.rng, token, model::claim_is_new(before, source_net, candidate, nonce, C as nat, now))
                };
            assert((self@, r) == model::claimed(before, source_net, candidate, nonce, C as nat, now, token));
        }
        r
    }

    fn refresh_node_claim(&mut self, source_net: u16, node_id: u8, refresh_token: [u8; 8]) -> (r:
        Result<NodeClaimAssignment, AddressRefreshError>)
        ensures
            final(self).clock == old(self).clock,
            exists|now: Nanos, token: u64|
                {
                    &&& old(self).clock.shows(now)
                    &&& (final(self)@, r) == #[trigger] model::claim_refreshed(
                        old(self)@,
                        source_net,
                        node_id,
                        leases::token_of(refresh_token),
                        now,
                        token,
                    )
                    &&& R::drew(old(self).rng, final(self).rng, token)
                },
    {
        let ghost before = self@;
        let new_token: u64 = self.rng.next_u64();
        let now: Nanos = self.clock.now();
        assert(self.clock.shows(now));
        let r = self.state.refresh_node_claim(source_net, node_id, refresh_token, now, new_token);
        assert((self@, r) == model::claim_refreshed(before, source_net, node_id, leases::token_of(refresh_token), now, new_token));
        r
    }
}

} // verus!

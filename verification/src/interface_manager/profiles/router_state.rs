//! The state of a router, with time and tokens as arguments.

use vstd::prelude::*;
use crate::clock;
use crate::clock::{Closer, TokenSource};
use crate::interface_manager::edge_port::{EdgePort, CENTRAL_NODE_ID, EDGE_NODE_ID};
use crate::interface_manager::lease_table;
use crate::interface_manager::lease_table::LeaseTable;
use crate::interface_manager::leases;
use crate::interface_manager::leases::{
    Lease, LeaseKind, Nanos, RefreshDenied, TokenMatch, INITIAL_LEASE_SECS, MAX_LEASE_SECS,
    MIN_REFRESH_SECS, NANOS_PER_SEC, TOMBSTONE_DURATION_SECS,
};
use crate::interface_manager::profiles::router_laws as laws;
use crate::interface_manager::profiles::router_model as model;
use crate::interface_manager::profiles::router_model::{
    DeregisterError, RegisterError, Route, RouterView, SeedRoute, Slot, UpstreamPort,
    SEED_DELEGATION_REFRESH_MARGIN, UPSTREAM_IDENT,
};
use crate::interface_manager::{
    AddressClaimError, AddressRefreshError, DelegatedRefreshPreparation, Interface,
    InterfaceSendError, InterfaceState, NodeClaimAssignment, Payload, SeedAssignmentError,
    SeedLease, SeedNetAssignment, SeedRefreshError, SetStateError,
};
use crate::{Header, ProtocolError};

verus! {

/// The state of a router: its interfaces, the networks that it has leased or
/// passed on, and the node addresses claimed on its buses.
///
/// - `I`: Interface type
/// - `N`: Maximum number of directly connected downstream interfaces
/// - `S`: Maximum number of seed-assigned routes (for bridge downstream networks)
/// - `C`: Maximum number of bus-style node_id claims (address claim protocol)
pub struct RouterState<I: Interface, const N: usize, const S: usize, const C: usize> {
    pub slots: Vec<Slot<I>>,
    pub seed_routes: LeaseTable<u16, SeedRoute, S>,
    pub node_claims: LeaseTable<u8, u64, C>,
    pub upstream: Option<UpstreamPort<I>>,
    /// The latest time at which a node claim was granted or extended.
    pub claimed_at: Ghost<Nanos>,
}

impl<I: Interface, const N: usize, const S: usize, const C: usize> View for RouterState<
    I,
    N,
    S,
    C,
> {
    type V = RouterView<I>;

    open spec fn view(&self) -> RouterView<I> {
        RouterView {
            slots: self.slots@,
            seeds: self.seed_routes@,
            claims: self.node_claims@,
            upstream: self.upstream,
            claimed_at: self.claimed_at@,
        }
    }
}

/// What a bridge hands to its downstream for a lease that it holds.
pub fn delegated_assignment(parent: &SeedLease, refresh_token: u64, expires_seconds: u16) -> (r:
    SeedNetAssignment)
    requires
        parent.min_refresh_seconds >= SEED_DELEGATION_REFRESH_MARGIN,
    ensures
        r == model::delegated(*parent, refresh_token, expires_seconds),
{
    SeedNetAssignment {
        net_id: parent.net_id,
        expires_seconds,
        max_refresh_seconds: parent.max_refresh_seconds,
        min_refresh_seconds: parent.min_refresh_seconds - SEED_DELEGATION_REFRESH_MARGIN,
        refresh_token: leases::token_to_bytes(refresh_token),
    }
}

/// How the holder of a seed route is told that a token is no good.
fn seed_denial(denied: RefreshDenied) -> (r: SeedRefreshError)
    ensures
        r == model::seed_denied(denied),
{
    match denied {
        RefreshDenied::Expired => SeedRefreshError::AlreadyExpired,
        RefreshDenied::BadToken | RefreshDenied::TooSoon => SeedRefreshError::BadRequest,
    }
}

/// What the holder of a node claim is told.
fn node_claim_assignment(node_id: u8, net_id: u16, expires_seconds: u16, token: u64) -> (r:
    NodeClaimAssignment)
    ensures
        r == model::claim_assignment(node_id, net_id, expires_seconds, token),
{
    NodeClaimAssignment {
        node_id,
        net_id,
        expires_seconds,
        max_refresh_seconds: MAX_LEASE_SECS,
        min_refresh_seconds: MIN_REFRESH_SECS,
        refresh_token: leases::token_to_bytes(token),
    }
}

/// The whole seconds left of a lease, as far as 16 bits go.
fn whole_lease_seconds(expiration: Nanos, now: Nanos) -> (r: u16)
    ensures
        r == model::whole_seconds(expiration, now),
{
    if expiration <= now {
        0
    } else {
        ((expiration - now) / NANOS_PER_SEC % 65536) as u16
    }
}

/// Fold one broadcast-leg send result into the loop accumulators.
///
/// The benign class, down/inactive interface (`NoRouteToDest`), the frame's own
/// source (`RoutingLoop`), a self-addressed leg (`DestinationLocal`), just means
/// "no recipient here" and is not remembered. Anything else (e.g.
/// `InterfaceFull`, `PacketTooBig`) is a *genuine* failure on an interface that
/// exists and was attempted; the caller reports it if no leg succeeded, so a
/// broadcast that failed everywhere is distinguishable from a broadcast with no
/// audience.
pub fn fold_broadcast_leg(
    res: Result<(), InterfaceSendError>,
    any_good: &mut bool,
    genuine: &mut Option<InterfaceSendError>,
)
    ensures
        (*final(any_good), *final(genuine)) == model::leg_folded(
            (*old(any_good), *old(genuine)),
            Some(res),
        ),
{
    match res {
        Ok(()) => {
            *any_good = true;
        },
        Err(e) => {
            match e {
                InterfaceSendError::NoRouteToDest
                | InterfaceSendError::RoutingLoop
                | InterfaceSendError::DestinationLocal => {},
                _ => {
                    *genuine = Some(e);
                },
            }
        },
    }
}

impl<I: Interface, const N: usize, const S: usize, const C: usize> RouterState<I, N, S, C> {
    /// The invariant of a router, see [`model::router_wf`].
    pub open spec fn wf(&self) -> bool {
        model::router_wf(self@, N as nat, S as nat, C as nat)
    }

    /// The state of a root router (no upstream).
    pub fn new() -> (r: Self)
        requires
            N <= 255,
        ensures
            r.wf(),
            r@ == (RouterView::<I> {
                slots: Seq::empty(),
                seeds: Seq::empty(),
                claims: Seq::empty(),
                upstream: None,
                claimed_at: 0,
            }),
    {
        RouterState {
            slots: Vec::new(),
            seed_routes: LeaseTable::new(),
            node_claims: LeaseTable::new(),
            upstream: None,
            claimed_at: Ghost(0),
        }
    }

    /// The state of a bridge router with an upstream interface, which starts in
    /// [`InterfaceState::Down`] and discovers its net_id from incoming frames.
    pub fn new_bridge(upstream_sink: I::Sink) -> (r: Self)
        requires
            N <= 255,
        ensures
            r.wf(),
            r@ == (RouterView::<I> {
                slots: Seq::empty(),
                seeds: Seq::empty(),
                claims: Seq::empty(),
                upstream: Some(
                    UpstreamPort {
                        port: EdgePort {
                            sink: upstream_sink,
                            state: InterfaceState::Down,
                            own_node_id: EDGE_NODE_ID,
                            other_node_id: CENTRAL_NODE_ID,
                        },
                        closer: None,
                    },
                ),
                claimed_at: 0,
            }),
    {
        RouterState {
            slots: Vec::new(),
            seed_routes: LeaseTable::new(),
            node_claims: LeaseTable::new(),
            upstream: Some(
                UpstreamPort { port: EdgePort::new_target(upstream_sink), closer: None },
            ),
            claimed_at: Ghost(0),
        }
    }

    /// Returns `true` if this router has an upstream interface (bridge mode).
    pub fn has_upstream(&self) -> (r: bool)
        ensures
            r == (self@.upstream is Some),
    {
        self.upstream.is_some()
    }

    /// The position of the slot with the given net_id.
    fn slot_with_net(&self, net_id: u16) -> (r: Option<usize>)
        ensures
            match r {
                Some(pos) => pos < self@.slots.len() && self@.slots[pos as int].net_id == net_id
                    && model::slot_of_net(self@.slots, net_id) == Some(pos as int)
                    && model::has_net(self@.slots, net_id),
                None => model::slot_of_net(self@.slots, net_id) is None && !model::has_net(
                    self@.slots,
                    net_id,
                ),
            },
    {
        let ghost p = |s: Slot<I>| s.net_id == net_id;
        let mut i: usize = 0;
        while i < self.slots.len()
            invariant
                i <= self.slots.len(),
                p == (|s: Slot<I>| s.net_id == net_id),
                forall|j: int| 0 <= j < i ==> !p(#[trigger] self.slots@[j]),
            decreases self.slots.len() - i,
        {
            if self.slots[i].net_id == net_id {
                proof {
                    lease_table::first_where_is(self.slots@, p, i as int);
                }
                return Some(i);
            }
            i = i + 1;
        }
        proof {
            lease_table::first_where_none(self.slots@, p);
            assert forall|j: int| 0 <= j < self.slots@.len() implies (
            #[trigger] self.slots@[j]).net_id != net_id by {
                assert(!p(self.slots@[j]));
            }
        }
        None
    }

    /// The position of the slot with the given ident.
    fn slot_with_ident(&self, ident: u8) -> (r: Option<usize>)
        ensures
            match r {
                Some(pos) => pos < self@.slots.len() && self@.slots[pos as int].ident == ident
                    && model::slot_of_ident(self@.slots, ident) == Some(pos as int)
                    && model::has_ident(self@.slots, ident),
                None => model::slot_of_ident(self@.slots, ident) is None && !model::has_ident(
                    self@.slots,
                    ident,
                ),
            },
    {
        let ghost p = |s: Slot<I>| s.ident == ident;
        let mut i: usize = 0;
        while i < self.slots.len()
            invariant
                i <= self.slots.len(),
                p == (|s: Slot<I>| s.ident == ident),
                forall|j: int| 0 <= j < i ==> !p(#[trigger] self.slots@[j]),
            decreases self.slots.len() - i,
        {
            if self.slots[i].ident == ident {
                proof {
                    lease_table::first_where_is(self.slots@, p, i as int);
                }
                return Some(i);
            }
            i = i + 1;
        }
        proof {
            lease_table::first_where_none(self.slots@, p);
            assert forall|j: int| 0 <= j < self.slots@.len() implies (
            #[trigger] self.slots@[j]).ident != ident by {
                assert(!p(self.slots@[j]));
            }
        }
        None
    }

    /// Whether the upstream interface has the given net_id.
    fn upstream_has_net(&self, net_id: u16) -> (r: bool)
        ensures
            r == (model::upstream_net(self@) == Some(net_id)),
    {
        match &self.upstream {
            Some(up) => match up.port.net_id() {
                Some(net) => net == net_id,
                None => false,
            },
            None => false,
        }
    }

    /// Returns `true` if `net_id` is currently in use by a direct slot, a seed
    /// route (including tombstoned routes, whose net_id stays reserved for the
    /// grace period), or the upstream interface.
    pub fn net_id_in_use(&self, net_id: u16) -> (r: bool)
        ensures
            r == model::net_in_use(self@, net_id),
    {
        self.slot_with_net(net_id).is_some() || self.seed_routes.contains_key(net_id)
            || self.upstream_has_net(net_id)
    }

    /// Allocate the lowest free net_id in `1..u16::MAX`, reusing net_ids that
    /// have been freed (slot removed, or seed-route tombstone cleared).
    ///
    /// A tombstoned seed route still counts as in use, so its net_id is not
    /// handed out again until the grace period elapses and the route is removed.
    /// net_ids 0 and `u16::MAX` are reserved.
    pub fn alloc_net_id(&self) -> (r: Option<u16>)
        ensures
            r == model::lowest_free(self@),
    {
        let mut id: u16 = 1;
        while id < 65535
            invariant
                1 <= id <= 65535,
                forall|other: u16| 1 <= other < id ==> #[trigger] model::net_in_use(self@, other),
            decreases 65535 - id,
        {
            if !self.net_id_in_use(id) {
                proof {
                    model::lowest_free_is(self@, id);
                }
                return Some(id);
            }
            id = id + 1;
        }
        None
    }

    /// The lowest ident that no interface has.
    fn alloc_ident(&self) -> (r: u8)
        requires
            self.wf(),
            self@.slots.len() < N,
        ensures
            r == model::lowest_ident(self@.slots, N as nat),
    {
        let mut id: u8 = 0;
        proof {
            laws::lowest_ident_exists(self@.slots, N as nat);
        }
        while self.slot_with_ident(id).is_some()
            invariant
                model::is_lowest_ident(
                    self@.slots,
                    N as nat,
                    model::lowest_ident(self@.slots, N as nat),
                ),
                id <= model::lowest_ident(self@.slots, N as nat),
            decreases 255 - id,
        {
            id = id + 1;
        }
        proof {
            let lowest = model::lowest_ident(self@.slots, N as nat);
            if id < lowest {
                assert(model::has_ident(self@.slots, id));
            }
        }
        id
    }

    /// Register a new downstream interface, see [`model::registered`].
    pub fn register_interface(&mut self, sink: I::Sink, now: Nanos) -> (r: Result<
        u8,
        RegisterError,
    >)
        requires
            old(self).wf(),
        ensures
            final(self).wf(),
            (final(self)@, r) == model::registered(old(self)@, sink, N as nat, now),
    {
        let ghost v = self@;
        proof {
            laws::register_keeps_wf(v, sink, now, N as nat, S as nat, C as nat);
            model::aging_keeps_wf(v, now, N as nat, S as nat, C as nat);
        }
        if self.has_upstream() {
            return Err(RegisterError::BridgeRequiresSeedAssignment);
        }
        // Reclaim net_ids from cleared seed-route tombstones before allocating.

        self.seed_routes.gc(now);
        if self.slots.len() == N {
            return Err(RegisterError::Full);
        }
        let ident: u8 = self.alloc_ident();
        let net_id: u16 = match self.alloc_net_id() {
            Some(net_id) => net_id,
            None => {
                return Err(RegisterError::NetIdsExhausted);
            },
        };
        let state = InterfaceState::Active { net_id, node_id: CENTRAL_NODE_ID };
        self.slots.push(
            Slot { ident, port: EdgePort::new_controller(sink, state), net_id, closer: None },
        );
        Ok(ident)
    }

    /// Register a new downstream interface without assigning a net_id, see
    /// [`model::registered_pending`].
    pub fn register_interface_pending(&mut self, sink: I::Sink) -> (r: Result<u8, RegisterError>)
        requires
            old(self).wf(),
        ensures
            final(self).wf(),
            (final(self)@, r) == model::registered_pending(old(self)@, sink, N as nat),
    {
        proof {
            laws::register_keeps_wf(self@, sink, 0, N as nat, S as nat, C as nat);
        }
        if self.slots.len() == N {
            return Err(RegisterError::Full);
        }
        let ident: u8 = self.alloc_ident();
        self.slots.push(
            Slot {
                ident,
                port: EdgePort::new_controller(sink, InterfaceState::Down),
                net_id: 0,
                closer: None,
            },
        );
        Ok(ident)
    }

    /// Remove a downstream interface by ident, see [`model::deregistered`]. Its
    /// workers are told to stop.
    pub fn deregister_interface(&mut self, ident: u8, now: Nanos) -> (r: Result<
        (),
        DeregisterError,
    >)
        requires
            old(self).wf(),
        ensures
            final(self).wf(),
            (final(self)@, r) == model::deregistered(old(self)@, ident, now),
            model::closer_of(old(self)@, ident) matches Some(c) ==> c.told_to_stop(),
    {
        let ghost v = self@;
        proof {
            laws::deregister_keeps_wf(v, ident, now, N as nat, S as nat, C as nat);
        }
        let pos: usize = match self.slot_with_ident(ident) {
            Some(pos) => pos,
            None => {
                return Err(DeregisterError::NotFound);
            },
        };
        let slot = self.slots.swap_remove(pos);

        // Signal workers to stop
        if let Some(closer) = &slot.closer {
            closer.close();
        }
        // Tombstone seed routes reachable via this ident. The interface is gone
        // now, so the grace is anchored to now (no lease expiration).

        let clear_time: Nanos = leases::time_after(now, TOMBSTONE_DURATION_SECS);
        let ghost marked = model::tombstoned_via(v.seeds, ident, clear_time);
        let mut i: usize = 0;
        while i < self.seed_routes.entries.len()
            invariant
                i <= self.seed_routes.entries.len(),
                marked == model::tombstoned_via(v.seeds, ident, clear_time),
                self.seed_routes@.len() == v.seeds.len(),
                forall|k: int| 0 <= k < i ==> (#[trigger] self.seed_routes@[k]) == marked[k],
                forall|k: int|
                    i <= k < v.seeds.len() ==> (#[trigger] self.seed_routes@[k]) == v.seeds[k],
                self.node_claims@ == v.claims,
                self.claimed_at@ == v.claimed_at,
                self.upstream == v.upstream,
                self.slots@ == v.slots.update(pos as int, v.slots.last()).drop_last(),
            decreases self.seed_routes.entries.len() - i,
        {
            if self.seed_routes.entries[i].extra.via_ident == ident {
                self.seed_routes.entries[i].kind = LeaseKind::Tombstone { clear_time };
            }
            i = i + 1;
        }
        assert(self.seed_routes@ =~= marked);

        // Drop node_id claims scoped to this interface's bus net_id. Unlike a
        // seed route (a globally-unique net_id, tombstoned so a stale peer
        // can't collide), a node claim is only meaningful while its bus exists.
        self.node_claims.drop_scope(slot.net_id);
        Ok(())
    }

    /// Get the net_id for a given ident, if it exists.
    pub fn net_id_of(&self, ident: u8) -> (r: Option<u16>)
        ensures
            r == (match model::slot_of_ident(self@.slots, ident) {
                Some(pos) => Some(self@.slots[pos].net_id),
                None => None,
            }),
    {
        match self.slot_with_ident(ident) {
            Some(pos) => Some(self.slots[pos].net_id),
            None => None,
        }
    }

    /// The state of an interface after it got a closer, which replaces any
    /// other. Of an unknown ident nothing is stored.
    pub open spec fn with_closer(v: RouterView<I>, ident: u8, closer: Closer) -> RouterView<I> {
        if ident == UPSTREAM_IDENT {
            match v.upstream {
                Some(up) => RouterView {
                    upstream: Some(UpstreamPort { closer: Some(closer), ..up }),
                    ..v
                },
                None => v,
            }
        } else {
            match model::slot_of_ident(v.slots, ident) {
                Some(pos) => RouterView {
                    slots: v.slots.update(pos, Slot { closer: Some(closer), ..v.slots[pos] }),
                    ..v
                },
                None => v,
            }
        }
    }

    /// Store a closer for an interface, so that workers are notified when the
    /// interface is deregistered.
    pub fn set_interface_closer(&mut self, ident: u8, closer: Closer)
        requires
            old(self).wf(),
        ensures
            final(self).wf(),
            final(self)@ == Self::with_closer(old(self)@, ident, closer),
    {
        let ghost v = self@;
        if ident == UPSTREAM_IDENT {
            if let Some(up) = &mut self.upstream {
                up.closer = Some(closer);
            }
        } else {
            if let Some(pos) = self.slot_with_ident(ident) {
                self.slots[pos].closer = Some(closer);
            }
        }
        proof {
            laws::ports_do_not_matter(v, self@, N as nat, S as nat, C as nat);
        }
    }

    /// Return active net_ids.
    pub fn get_nets(&self) -> (r: Vec<u16>)
        ensures
            r@ == model::active_nets(self@.slots, self@.slots.len()),
    {
        let mut nets: Vec<u16> = Vec::new();
        let mut i: usize = 0;
        while i < self.slots.len()
            invariant
                i <= self.slots.len(),
                nets@ == model::active_nets(self.slots@, i as nat),
            decreases self.slots.len() - i,
        {
            if let Some(net_id) = self.slots[i].port.net_id() {
                nets.push(net_id);
            }
            i = i + 1;
        }
        nets
    }

    /// Try to route through the upstream interface (bridge mode only).
    pub fn find_upstream(&self, source: Option<u8>) -> (r: Result<Route, InterfaceSendError>)
        ensures
            r == model::route_upstream(self@, source),
    {
        if self.upstream.is_none() {
            return Err(InterfaceSendError::NoRouteToDest);
        }
        // Don't route back to upstream if that's where it came from

        if let Some(ident) = source {
            if ident == UPSTREAM_IDENT {
                return Err(InterfaceSendError::RoutingLoop);
            }
        }
        Ok(Route::Upstream)
    }

    /// Find the port to send through for a given destination net_id.
    ///
    /// Searches direct slots first, then seed routes.
    pub fn find(&mut self, hdr: &Header, source: Option<u8>, now: Nanos) -> (r: Result<
        Route,
        InterfaceSendError,
    >)
        requires
            old(self).wf(),
        ensures
            final(self).wf(),
            (final(self)@, r) == model::found(old(self)@, *hdr, source, now),
            r matches Ok(Route::Slot(pos)) ==> pos < final(self)@.slots.len(),
            r matches Ok(Route::Upstream) ==> final(self)@.upstream is Some,
    {
        if hdr.dst.port_id == 0 && hdr.any_all.is_none() {
            return Err(InterfaceSendError::AnyPortMissingKey);
        }
        proof {
            model::aging_keeps_wf(self@, now, N as nat, S as nat, C as nat);
        }
        // GC expired tombstones so they don't occupy slots indefinitely
        self.seed_routes.gc(now);
        let net: u16 = hdr.dst.network_id;

        // 1. Direct link lookup (skip pending slots with net_id=0: they haven't
        //    been assigned a real net_id yet and must not intercept link-local
        //    frames destined for the upstream)
        if net != 0 {
            if let Some(pos) = self.slot_with_net(net) {
                if hdr.dst.node_id == CENTRAL_NODE_ID {
                    return Err(InterfaceSendError::DestinationLocal);
                }
                if let Some(src_ident) = source {
                    if self.slots[pos].ident == src_ident {
                        return Err(InterfaceSendError::RoutingLoop);
                    }
                }
                return Ok(Route::Slot(pos));
            }
        }
        // 2. Seed route lookup. net_id is the unique key, so look up by key alone.

        let via_ident: u8 = match self.seed_routes.by_key(net) {
            // 3. Upstream fallback (bridge mode)
            None => {
                return self.find_upstream(source);
            },
            Some(k) => {
                if !self.seed_routes.entries[k].kind.is_active(now) {
                    return Err(InterfaceSendError::NoRouteToDest);
                }
                self.seed_routes.entries[k].extra.via_ident
            },
        };
        if let Some(src_ident) = source {
            if via_ident == src_ident {
                return Err(InterfaceSendError::RoutingLoop);
            }
        }
        match self.slot_with_ident(via_ident) {
            Some(pos) => Ok(Route::Slot(pos)),
            None => Err(InterfaceSendError::NoRouteToDest),
        }
    }

    /// Send a serialised message that originates here.
    pub fn send(&mut self, hdr: &Header, data: &[u8], now: Nanos) -> (r: Result<
        (),
        InterfaceSendError,
    >)
        requires
            old(self).wf(),
        ensures
            final(self).wf(),
            model::sent(old(self)@, final(self)@, *hdr, Payload::Message(data@), None, now, r),
    {
        let ghost v = self@;
        let mut hdr = *hdr;
        let ghost first = hdr;
        if let Err(e) = hdr.decrement_ttl() {
            return Err(e);
        }
        let r = if hdr.dst.port_id == 255 {
            self.broadcast_message(&hdr, data)
        } else {
            match self.find(&hdr, None, now) {
                Err(e) => Err(e),
                Ok(Route::Slot(pos)) => self.slots[pos].port.send(&hdr, data),
                Ok(Route::Upstream) => match &mut self.upstream {
                    Some(up) => up.port.send(&hdr, data),
                    None => Err(InterfaceSendError::NoRouteToDest),
                },
            }
        };
        proof {
            laws::send_keeps_wf(
                v,
                self@,
                first,
                Payload::Message(data@),
                None,
                now,
                r,
                N as nat,
                S as nat,
                C as nat,
            );
        }
        r
    }

    /// Tries a message that originates here on every segment that has a net_id,
    /// and on the upstream.
    fn broadcast_message(&mut self, hdr: &Header, data: &[u8]) -> (r: Result<
        (),
        InterfaceSendError,
    >)
        ensures
            model::broadcast(
                old(self)@,
                final(self)@,
                *hdr,
                Payload::Message(data@),
                None::<u8>,
                r,
            ),
    {
        let ghost v = self@;
        let ghost what = Payload::Message(data@);
        if hdr.any_all.is_none() {
            return Err(InterfaceSendError::AnyPortMissingKey);
        }
        let mut any_good: bool = false;
        let mut genuine: Option<InterfaceSendError> = None;
        let ghost mut legs: Seq<Option<Result<(), InterfaceSendError>>> = Seq::empty();
        let mut i: usize = 0;
        while i < self.slots.len()
            invariant
                i <= self.slots.len(),
                legs.len() == i,
                what == Payload::Message(data@),
                (any_good, genuine) == model::legs_folded(legs),
                model::slot_legs(v.slots, self.slots@, *hdr, what, None::<u8>, legs, i as nat),
                forall|k: int|
                    i <= k < v.slots.len() ==> (#[trigger] self.slots@[k]) == v.slots[k],
                self.seed_routes@ == v.seeds,
                self.node_claims@ == v.claims,
                self.claimed_at@ == v.claimed_at,
                self.upstream == v.upstream,
            decreases self.slots.len() - i,
        {
            let ghost slots0 = self.slots@;
            let ghost legs0 = legs;
            // Skip pending (not-yet-assigned) slots.
            if self.slots[i].net_id != 0 {
                let mut bhdr = *hdr;
                bhdr.dst.network_id = self.slots[i].net_id;
                bhdr.dst.node_id = EDGE_NODE_ID;
                let res = self.slots[i].port.send(&bhdr, data);
                proof {
                    legs = legs.push(Some(res));
                    assert(legs.drop_last() =~= legs0);
                }
                fold_broadcast_leg(res, &mut any_good, &mut genuine);
            } else {
                proof {
                    legs = legs.push(None);
                    assert(legs.drop_last() =~= legs0);
                }
            }
            proof {
                assert forall|k: int| 0 <= k < i + 1 implies {
                    let leg = #[trigger] legs[k];
                    let port = self.slots@[k].port;
                    if model::leg_tried(v.slots[k], None::<u8>) {
                        &&& leg is Some
                        &&& EdgePort::sent(
                            v.slots[k].port,
                            port,
                            model::leg_header(*hdr, v.slots[k].net_id),
                            what,
                            leg->0,
                        )
                        &&& self.slots@[k] == (Slot { port, ..v.slots[k] })
                    } else {
                        leg is None && self.slots@[k] == v.slots[k]
                    }
                } by {
                    if k < i {
                        assert(legs[k] == legs0[k]);
                        assert(self.slots@[k] == slots0[k]);
                    }
                }
            }
            i = i + 1;
        }
        // Also broadcast to upstream (bridge mode)
        let ghost legs0 = legs;
        if let Some(up) = &mut self.upstream {
            let res = up.port.send(hdr, data);
            proof {
                legs = legs.push(Some(res));
                assert(legs.drop_last() =~= legs0);
            }
            fold_broadcast_leg(res, &mut any_good, &mut genuine);
        } else {
            proof {
                legs = legs.push(None);
                assert(legs.drop_last() =~= legs0);
            }
        }
        proof {
            assert forall|k: int| 0 <= k < i implies #[trigger] legs[k] == legs0[k] by {}
            assert(model::slot_legs(
                v.slots,
                self.slots@,
                *hdr,
                what,
                None::<u8>,
                legs,
                v.slots.len(),
            ));
        }
        let r = if any_good {
            Ok(())
        } else {
            match genuine {
                Some(e) => Err(e),
                None => Err(InterfaceSendError::NoRouteToDest),
            }
        };
        proof {
            assert(model::upstream_leg(
                v,
                self.upstream,
                *hdr,
                what,
                None::<u8>,
                legs.last(),
            ));
            assert(r == model::broadcast_result(
                model::legs_folded(legs),
                InterfaceSendError::NoRouteToDest,
            ));
        }
        r
    }

    /// Send a protocol error. Errors may originate locally or remotely.
    pub fn send_err(&mut self, hdr: &Header, err: ProtocolError, source: Option<u8>, now: Nanos)
        -> (r: Result<(), InterfaceSendError>)
        requires
            old(self).wf(),
        ensures
            final(self).wf(),
            model::sent(old(self)@, final(self)@, *hdr, Payload::Error(err), source, now, r),
    {
        let ghost v = self@;
        let mut hdr = *hdr;
        let ghost first = hdr;
        if let Err(e) = hdr.decrement_ttl() {
            return Err(e);
        }
        let r = match self.find(&hdr, source, now) {
            Err(e) => Err(e),
            Ok(Route::Slot(pos)) => self.slots[pos].port.send_err(&hdr, err),
            Ok(Route::Upstream) => match &mut self.upstream {
                Some(up) => up.port.send_err(&hdr, err),
                None => Err(InterfaceSendError::NoRouteToDest),
            },
        };
        proof {
            laws::send_keeps_wf(
                v,
                self@,
                first,
                Payload::Error(err),
                source,
                now,
                r,
                N as nat,
                S as nat,
                C as nat,
            );
        }
        r
    }

    /// Send a pre-serialized message that came in on interface `source`.
    pub fn send_raw(&mut self, hdr: &Header, data: &[u8], source: u8, now: Nanos) -> (r: Result<
        (),
        InterfaceSendError,
    >)
        requires
            old(self).wf(),
        ensures
            final(self).wf(),
            model::sent(
                old(self)@,
                final(self)@,
                *hdr,
                Payload::Raw(data@),
                Some(source),
                now,
                r,
            ),
    {
        let ghost v = self@;
        let mut hdr = *hdr;
        let ghost first = hdr;
        if let Err(e) = hdr.decrement_ttl() {
            return Err(e);
        }
        let r = if hdr.dst.port_id == 255 {
            self.broadcast_raw(&hdr, data, source)
        } else {
            match self.find(&hdr, Some(source), now) {
                Err(e) => Err(e),
                Ok(Route::Slot(pos)) => self.slots[pos].port.send_raw(&hdr, data),
                Ok(Route::Upstream) => match &mut self.upstream {
                    Some(up) => up.port.send_raw(&hdr, data),
                    None => Err(InterfaceSendError::NoRouteToDest),
                },
            }
        };
        proof {
            laws::send_keeps_wf(
                v,
                self@,
                first,
                Payload::Raw(data@),
                Some(source),
                now,
                r,
                N as nat,
                S as nat,
                C as nat,
            );
        }
        r
    }

    /// Tries a message that is passed on on every interface but its source.
    fn broadcast_raw(&mut self, hdr: &Header, data: &[u8], source: u8) -> (r: Result<
        (),
        InterfaceSendError,
    >)
        ensures
            model::broadcast(
                old(self)@,
                final(self)@,
                *hdr,
                Payload::Raw(data@),
                Some(source),
                r,
            ),
    {
        let ghost v = self@;
        let ghost what = Payload::Raw(data@);
        if hdr.any_all.is_none() {
            return Err(InterfaceSendError::AnyPortMissingKey);
        }
        let has_any_interface = !self.slots.is_empty() || self.upstream.is_some();
        if !has_any_interface {
            return Err(InterfaceSendError::NoRouteToDest);
        }
        let mut bhdr = *hdr;
        let mut default_error = InterfaceSendError::RoutingLoop;
        let mut any_good: bool = false;
        let mut genuine: Option<InterfaceSendError> = None;
        let ghost mut legs: Seq<Option<Result<(), InterfaceSendError>>> = Seq::empty();
        let mut i: usize = 0;
        while i < self.slots.len()
            invariant
                i <= self.slots.len(),
                legs.len() == i,
                what == Payload::Raw(data@),
                (any_good, genuine) == model::legs_folded(legs),
                model::slot_legs(v.slots, self.slots@, *hdr, what, Some(source), legs, i as nat),
                forall|k: int|
                    i <= k < v.slots.len() ==> (#[trigger] self.slots@[k]) == v.slots[k],
                self.seed_routes@ == v.seeds,
                self.node_claims@ == v.claims,
                self.claimed_at@ == v.claimed_at,
                self.upstream == v.upstream,
                bhdr == model::upstream_leg_header(v.slots, *hdr, Some(source), i as nat),
                bhdr == (Header { dst: bhdr.dst, ..*hdr }),
                bhdr.dst.port_id == hdr.dst.port_id,
                default_error == (if exists|k: int|
                    0 <= k < i && model::leg_tried(#[trigger] v.slots[k], Some(source)) {
                    InterfaceSendError::NoRouteToDest
                } else {
                    InterfaceSendError::RoutingLoop
                }),
            decreases self.slots.len() - i,
        {
            let ghost slots0 = self.slots@;
            let ghost legs0 = legs;
            if self.slots[i].ident != source {
                default_error = InterfaceSendError::NoRouteToDest;
                bhdr.dst.network_id = self.slots[i].net_id;
                bhdr.dst.node_id = EDGE_NODE_ID;
                let res = self.slots[i].port.send_raw(&bhdr, data);
                proof {
                    assert(model::leg_tried(v.slots[i as int], Some(source)));
                    legs = legs.push(Some(res));
                    assert(legs.drop_last() =~= legs0);
                }
                fold_broadcast_leg(res, &mut any_good, &mut genuine);
            } else {
                proof {
                    legs = legs.push(None);
                    assert(legs.drop_last() =~= legs0);
                }
            }
            proof {
                assert forall|k: int| 0 <= k < i + 1 implies {
                    let leg = #[trigger] legs[k];
                    let port = self.slots@[k].port;
                    if model::leg_tried(v.slots[k], Some(source)) {
                        &&& leg is Some
                        &&& EdgePort::sent(
                            v.slots[k].port,
                            port,
                            model::leg_header(*hdr, v.slots[k].net_id),
                            what,
                            leg->0,
                        )
                        &&& self.slots@[k] == (Slot { port, ..v.slots[k] })
                    } else {
                        leg is None && self.slots@[k] == v.slots[k]
                    }
                } by {
                    if k < i {
                        assert(legs[k] == legs0[k]);
                        assert(self.slots@[k] == slots0[k]);
                    }
                }
            }
            i = i + 1;
        }
        // Also broadcast to upstream (bridge mode), unless source is upstream
        let ghost legs0 = legs;
        let mut skip_upstream: bool = true;
        if source != UPSTREAM_IDENT {
            if let Some(up) = &mut self.upstream {
                skip_upstream = false;
                default_error = InterfaceSendError::NoRouteToDest;
                let res = up.port.send_raw(&bhdr, data);
                proof {
                    legs = legs.push(Some(res));
                    assert(legs.drop_last() =~= legs0);
                }
                fold_broadcast_leg(res, &mut any_good, &mut genuine);
            }
        }
        proof {
            if skip_upstream {
                legs = legs.push(None);
                assert(legs.drop_last() =~= legs0);
            }
            assert forall|k: int| 0 <= k < i implies #[trigger] legs[k] == legs0[k] by {}
            assert(model::slot_legs(
                v.slots,
                self.slots@,
                *hdr,
                what,
                Some(source),
                legs,
                v.slots.len(),
            ));
        }
        let r = if any_good {
            Ok(())
        } else {
            match genuine {
                Some(e) => Err(e),
                None => Err(default_error),
            }
        };
        proof {
            assert(model::upstream_leg(
                v,
                self.upstream,
                *hdr,
                what,
                Some(source),
                legs.last(),
            ));
            assert(r == model::broadcast_result(model::legs_folded(legs), default_error));
        }
        r
    }

    /// The state of the interface with the given ident.
    pub fn interface_state(&self, ident: u8) -> (r: Option<InterfaceState>)
        ensures
            r == model::state_of(self@, ident),
    {
        if ident == UPSTREAM_IDENT {
            return match &self.upstream {
                Some(up) => Some(up.port.state()),
                None => None,
            };
        }
        match self.slot_with_ident(ident) {
            Some(pos) => Some(self.slots[pos].port.state()),
            None => None,
        }
    }

    /// Set the state of the interface with the given ident.
    pub fn set_interface_state(&mut self, ident: u8, state: InterfaceState) -> (r: Result<
        (),
        SetStateError,
    >)
        requires
            old(self).wf(),
        ensures
            final(self).wf(),
            (final(self)@, r) == model::state_set(old(self)@, ident, state),
    {
        proof {
            laws::set_state_keeps_wf(self@, ident, state, N as nat, S as nat, C as nat);
        }
        let ghost v = self@;
        if ident == UPSTREAM_IDENT {
            let r = match &mut self.upstream {
                Some(up) => up.port.set_state(state),
                None => Err(SetStateError::InterfaceNotFound),
            };
            return r;
        }
        let r = match self.slot_with_ident(ident) {
            Some(pos) => self.slots[pos].port.set_state(state),
            None => Err(SetStateError::InterfaceNotFound),
        };
        assert(r is Err ==> self.slots@ =~= v.slots);
        r
    }

    /// Give a downstream interface a new net_id, see [`model::reassigned`].
    pub fn reassign_interface_net_id(&mut self, ident: u8, new_net_id: u16) -> (r: Result<
        (),
        SetStateError,
    >)
        requires
            old(self).wf(),
        ensures
            final(self).wf(),
            (final(self)@, r) == model::reassigned(old(self)@, ident, new_net_id),
    {
        let ghost v = self@;
        proof {
            laws::reassign_keeps_wf(v, ident, new_net_id, N as nat, S as nat, C as nat);
        }
        if new_net_id == 0 || self.other_slot_has_net(ident, new_net_id)
            || self.seed_routes.contains_key(new_net_id) || self.upstream_has_net(new_net_id) {
            return Err(SetStateError::NetIdInUse);
        }
        let pos: usize = match self.slot_with_ident(ident) {
            Some(pos) => pos,
            None => {
                return Err(SetStateError::InterfaceNotFound);
            },
        };
        let old_net_id: u16 = self.slots[pos].net_id;

        // Purge node claims scoped to the net_id being replaced. Otherwise they
        // linger and, if that net_id is later handed to a different interface,
        // would validate foreign frames or block legitimate re-claims on the new
        // bus.
        if old_net_id != new_net_id {
            self.node_claims.drop_scope(old_net_id);
        }
        self.slots[pos].net_id = new_net_id;
        let r = self.slots[pos].port.set_state(
            InterfaceState::Active { net_id: new_net_id, node_id: CENTRAL_NODE_ID },
        );
        assert(self.slots@ =~= model::reassigned(v, ident, new_net_id).0.slots);
        r
    }

    /// Whether another interface than `ident` has the net_id.
    fn other_slot_has_net(&self, ident: u8, net_id: u16) -> (r: bool)
        ensures
            r == exists|i: int|
                0 <= i < self@.slots.len() && (#[trigger] self@.slots[i]).ident != ident
                    && self@.slots[i].net_id == net_id,
    {
        let mut i: usize = 0;
        while i < self.slots.len()
            invariant
                i <= self.slots.len(),
                forall|j: int|
                    0 <= j < i ==> !((#[trigger] self.slots@[j]).ident != ident
                        && self.slots@[j].net_id == net_id),
            decreases self.slots.len() - i,
        {
            if self.slots[i].ident != ident && self.slots[i].net_id == net_id {
                assert(self@.slots[i as int].ident != ident);
                return true;
            }
            i = i + 1;
        }
        false
    }

    /// Checks whether a network can be leased, see [`model::seed_checked`].
    pub fn check_seed_assign(&mut self, source_net: u16, now: Nanos) -> (r: Result<
        (u8, u16),
        SeedAssignmentError,
    >)
        requires
            old(self).wf(),
        ensures
            final(self).wf(),
            (final(self)@, r) == model::seed_checked(old(self)@, source_net, S as nat, now),
    {
        proof {
            laws::seed_assign_keeps_wf(self@, source_net, now, 0, N as nat, S as nat, C as nat);
        }
        if self.has_upstream() {
            return Err(SeedAssignmentError::ProfileCantSeed);
        }
        // net_id 0 is the pending placeholder, not a real source segment. Reject
        // it explicitly so a request arriving on a not-yet-assigned slot can't
        // match a pending slot and be granted an assignment scoped to net 0.

        if source_net == 0 {
            return Err(SeedAssignmentError::UnknownSource);
        }
        self.seed_routes.gc(now);
        let via_ident: u8 = match self.slot_with_net(source_net) {
            Some(pos) => self.slots[pos].ident,
            None => {
                return Err(SeedAssignmentError::UnknownSource);
            },
        };
        if self.seed_routes.is_full() {
            return Err(SeedAssignmentError::NetIdsExhausted);
        }
        match self.alloc_net_id() {
            Some(net_id) => Ok((via_ident, net_id)),
            None => Err(SeedAssignmentError::NetIdsExhausted),
        }
    }

    /// Leases the network that [`check_seed_assign`](Self::check_seed_assign)
    /// found.
    fn grant_seed(
        &mut self,
        via_ident: u8,
        net_id: u16,
        source_net: u16,
        now: Nanos,
        token: u64,
        Ghost(v): Ghost<RouterView<I>>,
    ) -> (r: SeedNetAssignment)
        requires
            model::router_wf(v, N as nat, S as nat, C as nat),
            model::seed_checked(v, source_net, S as nat, now) == (
                old(self)@,
                Ok::<(u8, u16), SeedAssignmentError>((via_ident, net_id)),
            ),
        ensures
            final(self).wf(),
            (final(self)@, Ok::<SeedNetAssignment, SeedAssignmentError>(r)) == model::seed_assigned(
                v,
                source_net,
                S as nat,
                now,
                token,
            ),
    {
        proof {
            laws::seed_assign_keeps_wf(v, source_net, now, token, N as nat, S as nat, C as nat);
        }
        self.seed_routes.push(
            net_id,
            source_net,
            SeedRoute { via_ident, parent: None },
            LeaseKind::active(now, INITIAL_LEASE_SECS, token),
        );
        SeedNetAssignment {
            net_id,
            expires_seconds: INITIAL_LEASE_SECS,
            max_refresh_seconds: MAX_LEASE_SECS,
            min_refresh_seconds: MIN_REFRESH_SECS,
            refresh_token: leases::token_to_bytes(token),
        }
    }

    /// Lease a network, see [`model::seed_assigned`]. A token is drawn from
    /// `tokens` only if the lease is granted.
    pub fn request_seed_net_assign<R: TokenSource>(
        &mut self,
        source_net: u16,
        now: Nanos,
        tokens: &mut R,
    ) -> (r: Result<SeedNetAssignment, SeedAssignmentError>)
        requires
            old(self).wf(),
        ensures
            final(self).wf(),
            exists|token: u64|
                {
                    &&& (final(self)@, r) == #[trigger] model::seed_assigned(
                        old(self)@,
                        source_net,
                        S as nat,
                        now,
                        token,
                    )
                    &&& clock::drawn_if(*old(tokens), *final(tokens), token, r is Ok)
                },
    {
        let ghost v = self@;
        match self.check_seed_assign(source_net, now) {
            Err(e) => {
                assert((self@, Err::<SeedNetAssignment, _>(e)) == model::seed_assigned(
                    v,
                    source_net,
                    S as nat,
                    now,
                    0,
                ));
                Err(e)
            },
            Ok((via_ident, net_id)) => {
                let token: u64 = tokens.next_u64();
                Ok(self.grant_seed(via_ident, net_id, source_net, now, token, Ghost(v)))
            },
        }
    }

    /// Whether a delegated route can be registered, see
    /// [`model::delegation_possible`].
    pub fn can_delegate_seed(&mut self, source_net: u16, now: Nanos) -> (r: Result<
        (),
        SeedAssignmentError,
    >)
        requires
            old(self).wf(),
        ensures
            final(self).wf(),
            (final(self)@, r) == model::delegation_possible(
                old(self)@,
                source_net,
                S as nat,
                now,
            ),
    {
        proof {
            model::aging_keeps_wf(self@, now, N as nat, S as nat, C as nat);
        }
        self.seed_routes.gc(now);
        if source_net == 0 || self.slot_with_net(source_net).is_none() {
            return Err(SeedAssignmentError::UnknownSource);
        }
        if self.seed_routes.is_full() {
            return Err(SeedAssignmentError::NetIdsExhausted);
        }
        Ok(())
    }

    /// Checks whether a lease can be passed on, see
    /// [`model::delegation_checked`].
    pub fn check_delegation(&mut self, source_net: u16, parent: &SeedLease, now: Nanos) -> (r:
        Result<u8, SeedAssignmentError>)
        requires
            old(self).wf(),
        ensures
            final(self).wf(),
            (final(self)@, r) == model::delegation_checked(
                old(self)@,
                source_net,
                *parent,
                S as nat,
                now,
            ),
    {
        proof {
            laws::delegation_keeps_wf(
                self@,
                source_net,
                *parent,
                now,
                0,
                N as nat,
                S as nat,
                C as nat,
            );
        }
        self.seed_routes.gc(now);
        if source_net == 0 {
            return Err(SeedAssignmentError::UnknownSource);
        }
        let via_ident: u8 = match self.slot_with_net(source_net) {
            Some(pos) => self.slots[pos].ident,
            None => {
                return Err(SeedAssignmentError::UnknownSource);
            },
        };
        if self.slot_with_net(parent.net_id).is_some() || self.upstream_has_net(parent.net_id) {
            return Err(SeedAssignmentError::NetIdCollision);
        }
        if parent.min_refresh_seconds <= SEED_DELEGATION_REFRESH_MARGIN {
            return Err(SeedAssignmentError::DelegationDepthExceeded);
        }
        // Re-delegation of a net we already route is idempotent: drop the stale
        // entry and re-register. (net_id is the table's unique key.)

        self.seed_routes.remove_key(parent.net_id);
        if self.seed_routes.is_full() {
            return Err(SeedAssignmentError::NetIdsExhausted);
        }
        Ok(via_ident)
    }

    /// Passes on the lease that [`check_delegation`](Self::check_delegation)
    /// accepted. The route's lease tracks the upstream lease we hold, so it
    /// expires when the upstream lease does.
    fn grant_delegation(
        &mut self,
        via_ident: u8,
        source_net: u16,
        parent: &SeedLease,
        now: Nanos,
        token: u64,
        Ghost(v): Ghost<RouterView<I>>,
    ) -> (r: SeedNetAssignment)
        requires
            model::router_wf(v, N as nat, S as nat, C as nat),
            model::delegation_checked(v, source_net, *parent, S as nat, now) == (
                old(self)@,
                Ok::<u8, SeedAssignmentError>(via_ident),
            ),
        ensures
            final(self).wf(),
            (final(self)@, Ok::<SeedNetAssignment, SeedAssignmentError>(r))
                == model::delegation_registered(v, source_net, *parent, S as nat, now, token),
    {
        proof {
            laws::delegation_keeps_wf(
                v,
                source_net,
                *parent,
                now,
                token,
                N as nat,
                S as nat,
                C as nat,
            );
        }
        self.seed_routes.push(
            parent.net_id,
            source_net,
            SeedRoute { via_ident, parent: Some(*parent) },
            LeaseKind::active(now, parent.expires_seconds, token),
        );
        delegated_assignment(parent, token, parent.expires_seconds)
    }

    /// Pass on a lease, see [`model::delegation_registered`]. A token is drawn
    /// from `tokens` only if the route is registered.
    pub fn register_delegated_seed_net<R: TokenSource>(
        &mut self,
        source_net: u16,
        parent: &SeedLease,
        now: Nanos,
        tokens: &mut R,
    ) -> (r: Result<SeedNetAssignment, SeedAssignmentError>)
        requires
            old(self).wf(),
        ensures
            final(self).wf(),
            exists|token: u64|
                {
                    &&& (final(self)@, r) == #[trigger] model::delegation_registered(
                        old(self)@,
                        source_net,
                        *parent,
                        S as nat,
                        now,
                        token,
                    )
                    &&& clock::drawn_if(*old(tokens), *final(tokens), token, r is Ok)
                },
    {
        let ghost v = self@;
        match self.check_delegation(source_net, parent, now) {
            Err(e) => {
                assert((self@, Err::<SeedNetAssignment, _>(e)) == model::delegation_registered(
                    v,
                    source_net,
                    *parent,
                    S as nat,
                    now,
                    0,
                ));
                Err(e)
            },
            Ok(via_ident) => {
                let token: u64 = tokens.next_u64();
                Ok(self.grant_delegation(via_ident, source_net, parent, now, token, Ghost(v)))
            },
        }
    }

    /// Check a delegated refresh request, see [`model::refresh_prepared`].
    pub fn prepare_delegated_refresh(
        &mut self,
        source_net: u16,
        refresh_net: u16,
        refresh_token: [u8; 8],
        now: Nanos,
    ) -> (r: Result<DelegatedRefreshPreparation, SeedRefreshError>)
        requires
            old(self).wf(),
        ensures
            final(self).wf(),
            (final(self)@, r) == model::refresh_prepared(
                old(self)@,
                source_net,
                refresh_net,
                leases::token_of(refresh_token),
                now,
            ),
    {
        let req_token: u64 = leases::token_from_bytes(refresh_token);
        proof {
            model::aging_keeps_wf(self@, now, N as nat, S as nat, C as nat);
            laws::delegated_refresh_keeps_wf(
                self@,
                source_net,
                refresh_net,
                req_token,
                arbitrary(),
                now,
                0,
                N as nat,
                S as nat,
                C as nat,
            );
        }
        self.seed_routes.gc(now);
        let ghost v1 = self@;
        // net_id is the unique key; the requester (source_net) is the scope.
        let k: usize = match self.seed_routes.by_key(refresh_net) {
            Some(k) => k,
            None => {
                return Err(SeedRefreshError::UnknownNetId);
            },
        };
        if self.seed_routes.entries[k].scope != source_net {
            return Err(SeedRefreshError::BadRequest);
        }
        let mut kind = self.seed_routes.entries[k].kind;
        let checked = kind.validate_token(req_token, now, true);
        self.seed_routes.entries[k].kind = kind;
        proof {
            assert(model::seed_wf(v1.slots, v1.seeds[k as int]));
        }
        let which = match checked {
            Err(denied) => {
                return Err(seed_denial(denied));
            },
            Ok(which) => which,
        };
        let parent = match self.seed_routes.entries[k].extra.parent {
            Some(parent) => parent,
            None => {
                return Err(SeedRefreshError::NotAssigned);
            },
        };
        match which {
            TokenMatch::Current => Ok(DelegatedRefreshPreparation::Forward(parent)),
            TokenMatch::Replay => {
                let lease = match kind {
                    LeaseKind::Active(lease) => lease,
                    LeaseKind::Tombstone { .. } => {
                        return Err(SeedRefreshError::AlreadyExpired);
                    },
                };
                Ok(
                    DelegatedRefreshPreparation::Replay(
                        delegated_assignment(
                            &parent,
                            lease.refresh_token,
                            leases::remaining_lease_seconds(lease.expiration, now),
                        ),
                    ),
                )
            },
        }
    }

    /// Commit a refresh that the parent router granted, see
    /// [`model::refresh_committed`].
    pub fn commit_delegated_refresh(
        &mut self,
        source_net: u16,
        refresh_token: [u8; 8],
        refreshed_parent: &SeedLease,
        now: Nanos,
        new_token: u64,
    ) -> (r: Result<SeedNetAssignment, SeedRefreshError>)
        requires
            old(self).wf(),
        ensures
            final(self).wf(),
            (final(self)@, r) == model::refresh_committed(
                old(self)@,
                source_net,
                leases::token_of(refresh_token),
                *refreshed_parent,
                now,
                new_token,
            ),
    {
        let req_token: u64 = leases::token_from_bytes(refresh_token);
        let ghost v = self@;
        proof {
            laws::delegated_refresh_keeps_wf(
                v,
                source_net,
                0,
                req_token,
                *refreshed_parent,
                now,
                new_token,
                N as nat,
                S as nat,
                C as nat,
            );
        }
        if refreshed_parent.min_refresh_seconds <= SEED_DELEGATION_REFRESH_MARGIN {
            return Err(SeedRefreshError::DelegationDepthExceeded);
        }
        let k: usize = match self.seed_routes.get(refreshed_parent.net_id, source_net) {
            Some(k) => k,
            None => {
                return Err(SeedRefreshError::UnknownNetId);
            },
        };
        let mut kind = self.seed_routes.entries[k].kind;
        if let Err(denied) = kind.validate_token(req_token, now, false) {
            self.seed_routes.entries[k].kind = kind;
            return Err(seed_denial(denied));
        }
        if self.seed_routes.entries[k].extra.parent.is_none() {
            return Err(SeedRefreshError::NotAssigned);
        }
        let lease = match kind {
            LeaseKind::Active(lease) => lease,
            LeaseKind::Tombstone { .. } => {
                return Err(SeedRefreshError::AlreadyExpired);
            },
        };
        // No TooSoon check here: pacing is enforced by the upstream seed router,
        // whose refresh has already succeeded. Extend to track the upstream lease
        // and rotate the local token.

        self.seed_routes.entries[k].extra.parent = Some(*refreshed_parent);
        self.seed_routes.entries[k].kind =
        LeaseKind::Active(
            Lease {
                expiration: leases::time_after(now, refreshed_parent.expires_seconds),
                refresh_token: new_token,
                previous_refresh_token: Some(lease.refresh_token),
            },
        );
        proof {
            assert(self@.seeds =~= model::refresh_committed(
                v,
                source_net,
                req_token,
                *refreshed_parent,
                now,
                new_token,
            ).0.seeds);
        }
        Ok(delegated_assignment(refreshed_parent, new_token, refreshed_parent.expires_seconds))
    }

    /// Check a delegated release, see [`model::release_prepared`].
    pub fn prepare_delegated_release(
        &mut self,
        source_net: u16,
        release_net: u16,
        refresh_token: [u8; 8],
        now: Nanos,
    ) -> (r: Result<SeedLease, SeedRefreshError>)
        requires
            old(self).wf(),
        ensures
            final(self).wf(),
            (final(self)@, r) == model::release_prepared(
                old(self)@,
                source_net,
                release_net,
                leases::token_of(refresh_token),
                now,
            ),
    {
        let req_token: u64 = leases::token_from_bytes(refresh_token);
        proof {
            model::aging_keeps_wf(self@, now, N as nat, S as nat, C as nat);
            laws::delegated_refresh_keeps_wf(
                self@,
                source_net,
                release_net,
                req_token,
                arbitrary(),
                now,
                0,
                N as nat,
                S as nat,
                C as nat,
            );
        }
        self.seed_routes.gc(now);
        let k: usize = match self.seed_routes.get(release_net, source_net) {
            Some(k) => k,
            None => {
                return Err(SeedRefreshError::UnknownNetId);
            },
        };
        let mut kind = self.seed_routes.entries[k].kind;
        let checked = kind.validate_token(req_token, now, false);
        self.seed_routes.entries[k].kind = kind;
        if let Err(denied) = checked {
            return Err(seed_denial(denied));
        }
        match self.seed_routes.entries[k].extra.parent {
            Some(parent) => Ok(parent),
            None => Err(SeedRefreshError::NotAssigned),
        }
    }

    /// Remove a seed route at the request of its holder, see
    /// [`model::released`].
    pub fn commit_delegated_release(
        &mut self,
        source_net: u16,
        release_net: u16,
        refresh_token: [u8; 8],
        now: Nanos,
    ) -> (r: Result<(), SeedRefreshError>)
        requires
            old(self).wf(),
        ensures
            final(self).wf(),
            (final(self)@, r) == model::released(
                old(self)@,
                source_net,
                release_net,
                leases::token_of(refresh_token),
                now,
            ),
    {
        let req_token: u64 = leases::token_from_bytes(refresh_token);
        proof {
            laws::seed_refresh_keeps_wf(
                self@,
                source_net,
                release_net,
                req_token,
                now,
                0,
                N as nat,
                S as nat,
                C as nat,
            );
        }
        let k: usize = match self.seed_routes.get(release_net, source_net) {
            Some(k) => k,
            None => {
                return Err(SeedRefreshError::UnknownNetId);
            },
        };
        let mut kind = self.seed_routes.entries[k].kind;
        if let Err(denied) = kind.validate_token(req_token, now, false) {
            self.seed_routes.entries[k].kind = kind;
            return Err(seed_denial(denied));
        }
        self.seed_routes.remove(release_net, source_net);
        Ok(())
    }

    /// Release a root-owned seed assignment: as
    /// [`commit_delegated_release`](Self::commit_delegated_release), once the
    /// seed routes are brought up to date.
    pub fn release_seed_net_assignment(
        &mut self,
        source_net: u16,
        release_net: u16,
        refresh_token: [u8; 8],
        now: Nanos,
    ) -> (r: Result<(), SeedRefreshError>)
        requires
            old(self).wf(),
        ensures
            final(self).wf(),
            (final(self)@, r) == model::released(
                model::with_seeds_aged(old(self)@, now),
                source_net,
                release_net,
                leases::token_of(refresh_token),
                now,
            ),
    {
        proof {
            model::aging_keeps_wf(self@, now, N as nat, S as nat, C as nat);
        }
        self.seed_routes.gc(now);
        self.commit_delegated_release(source_net, release_net, refresh_token, now)
    }

    /// Refresh a seed route that this router granted itself, see
    /// [`model::seed_refreshed`].
    pub fn refresh_seed_net_assignment(
        &mut self,
        source_net: u16,
        refresh_net: u16,
        refresh_token: [u8; 8],
        now: Nanos,
        new_token: u64,
    ) -> (r: Result<SeedNetAssignment, SeedRefreshError>)
        requires
            old(self).wf(),
        ensures
            final(self).wf(),
            (final(self)@, r) == model::seed_refreshed(
                old(self)@,
                source_net,
                refresh_net,
                leases::token_of(refresh_token),
                now,
                new_token,
            ),
    {
        let req_token: u64 = leases::token_from_bytes(refresh_token);
        proof {
            laws::seed_refresh_keeps_wf(
                self@,
                source_net,
                refresh_net,
                req_token,
                now,
                new_token,
                N as nat,
                S as nat,
                C as nat,
            );
        }
        // A seed route is keyed by (assigned net_id, requesting source_net); a
        // mismatch on either means the requester doesn't own this lease.
        let k: usize = match self.seed_routes.get(refresh_net, source_net) {
            Some(k) => k,
            None => {
                return Err(SeedRefreshError::UnknownNetId);
            },
        };
        let mut kind = self.seed_routes.entries[k].kind;
        let refreshed = kind.refresh(req_token, now, new_token, true);
        self.seed_routes.entries[k].kind = kind;
        match refreshed {
            Ok((lease, replayed)) => Ok(
                SeedNetAssignment {
                    net_id: refresh_net,
                    expires_seconds: if replayed {
                        leases::remaining_lease_seconds(lease.expiration, now)
                    } else {
                        MAX_LEASE_SECS
                    },
                    max_refresh_seconds: MAX_LEASE_SECS,
                    min_refresh_seconds: MIN_REFRESH_SECS,
                    refresh_token: leases::token_to_bytes(lease.refresh_token),
                },
            ),
            Err(RefreshDenied::Expired) => Err(SeedRefreshError::AlreadyExpired),
            Err(RefreshDenied::BadToken) => Err(SeedRefreshError::BadRequest),
            Err(RefreshDenied::TooSoon) => Err(SeedRefreshError::TooSoon),
        }
    }

    /// Checks whether a node_id can be claimed, see [`model::claim_checked`].
    pub fn check_node_claim(&mut self, source_net: u16, candidate: u8, nonce: u64, now: Nanos) -> (r:
        Result<Option<NodeClaimAssignment>, AddressClaimError>)
        requires
            old(self).wf(),
        ensures
            final(self).wf(),
            (final(self)@, r) == model::claim_checked(
                old(self)@,
                source_net,
                candidate,
                nonce,
                C as nat,
                now,
            ),
    {
        proof {
            laws::claim_keeps_wf(
                self@,
                source_net,
                candidate,
                nonce,
                0,
                now,
                0,
                N as nat,
                S as nat,
                C as nat,
            );
        }
        // Reject reserved node_ids: 0 ("any"), CENTRAL/EDGE (point-to-point roles
        // that are always valid), and 255 (broadcast).
        if candidate == 0 || candidate == CENTRAL_NODE_ID || candidate == EDGE_NODE_ID || candidate
            == 255 {
            return Err(AddressClaimError::InvalidNodeId);
        }
        self.node_claims.gc(now);

        // Verify source net_id belongs to a known interface. net_id 0 is the
        // pending placeholder, so reject it explicitly rather than letting it
        // match a not-yet-assigned slot and grant a claim scoped to net 0.
        if source_net == 0 || self.slot_with_net(source_net).is_none() {
            return Err(AddressClaimError::UnknownSource);
        }
        // Check if the candidate is already claimed on this bus.

        if let Some(k) = self.node_claims.get(candidate, source_net) {
            // Same nonce = retransmit from the same device: idempotently return
            // the existing assignment. Different nonce or a tombstone = the
            // node_id is taken/reserved: conflict.
            return match self.node_claims.entries[k].kind {
                LeaseKind::Active(lease) => {
                    if self.node_claims.entries[k].extra == nonce {
                        Ok(
                            Some(
                                node_claim_assignment(
                                    candidate,
                                    source_net,
                                    whole_lease_seconds(lease.expiration, now),
                                    lease.refresh_token,
                                ),
                            ),
                        )
                    } else {
                        Err(AddressClaimError::Conflict)
                    }
                },
                LeaseKind::Tombstone { .. } => Err(AddressClaimError::Conflict),
            };
        }
        if self.node_claims.is_full() {
            return Err(AddressClaimError::Exhausted);
        }
        Ok(None)
    }

    /// Claim a node_id, see [`model::claimed`]. A token is drawn from `tokens`
    /// only if the node_id was free.
    pub fn request_node_claim<R: TokenSource>(
        &mut self,
        source_net: u16,
        candidate: u8,
        nonce: u64,
        now: Nanos,
        tokens: &mut R,
    ) -> (r: Result<NodeClaimAssignment, AddressClaimError>)
        requires
            old(self).wf(),
        ensures
            final(self).wf(),
            exists|token: u64|
                {
                    &&& (final(self)@, r) == #[trigger] model::claimed(
                        old(self)@,
                        source_net,
                        candidate,
                        nonce,
                        C as nat,
                        now,
                        token,
                    )
                    &&& clock::drawn_if(
                        *old(tokens),
                        *final(tokens),
                        token,
                        model::claim_is_new(
                            old(self)@,
                            source_net,
                            candidate,
                            nonce,
                            C as nat,
                            now,
                        ),
                    )
                },
    {
        let ghost v = self@;
        let r = match self.check_node_claim(source_net, candidate, nonce, now) {
            Err(e) => Err(e),
            Ok(Some(existing)) => Ok(existing),
            Ok(None) => {
                let token: u64 = tokens.next_u64();
                return Ok(
                    self.grant_node_claim(source_net, candidate, nonce, now, token, Ghost(v)),
                );
            },
        };
        assert((self@, r) == model::claimed(v, source_net, candidate, nonce, C as nat, now, 0));
        r
    }

    /// Records the claim that [`check_node_claim`](Self::check_node_claim)
    /// found to be free.
    fn grant_node_claim(
        &mut self,
        source_net: u16,
        candidate: u8,
        nonce: u64,
        now: Nanos,
        token: u64,
        Ghost(v): Ghost<RouterView<I>>,
    ) -> (r: NodeClaimAssignment)
        requires
            model::router_wf(v, N as nat, S as nat, C as nat),
            model::claim_checked(v, source_net, candidate, nonce, C as nat, now) == (
                old(self)@,
                Ok::<Option<NodeClaimAssignment>, AddressClaimError>(None),
            ),
        ensures
            final(self).wf(),
            (final(self)@, Ok::<NodeClaimAssignment, AddressClaimError>(r)) == model::claimed(
                v,
                source_net,
                candidate,
                nonce,
                C as nat,
                now,
                token,
            ),
    {
        proof {
            laws::claim_keeps_wf(
                v,
                source_net,
                candidate,
                nonce,
                0,
                now,
                token,
                N as nat,
                S as nat,
                C as nat,
            );
        }
        self.node_claims.push(
            candidate,
            source_net,
            nonce,
            LeaseKind::active(now, INITIAL_LEASE_SECS, token),
        );
        self.claimed_at = Ghost(model::latest(self.claimed_at@, now));
        node_claim_assignment(candidate, source_net, INITIAL_LEASE_SECS, token)
    }

    /// Refresh a node claim, see [`model::claim_refreshed`].
    pub fn refresh_node_claim(
        &mut self,
        source_net: u16,
        node_id: u8,
        refresh_token: [u8; 8],
        now: Nanos,
        new_token: u64,
    ) -> (r: Result<NodeClaimAssignment, AddressRefreshError>)
        requires
            old(self).wf(),
        ensures
            final(self).wf(),
            (final(self)@, r) == model::claim_refreshed(
                old(self)@,
                source_net,
                node_id,
                leases::token_of(refresh_token),
                now,
                new_token,
            ),
    {
        let req_token: u64 = leases::token_from_bytes(refresh_token);
        proof {
            laws::claim_keeps_wf(
                self@,
                source_net,
                node_id,
                0,
                req_token,
                now,
                new_token,
                N as nat,
                S as nat,
                C as nat,
            );
        }
        let k: usize = match self.node_claims.get(node_id, source_net) {
            Some(k) => k,
            None => {
                return Err(AddressRefreshError::UnknownNodeId);
            },
        };
        // If our rotated-token response was lost, the device retries with the
        // previous token. Accept that as an idempotent replay so a single lost
        // response can't force the lease to expire and lock the device off the
        // bus.
        let mut kind = self.node_claims.entries[k].kind;
        let refreshed = kind.refresh(req_token, now, new_token, true);
        self.node_claims.entries[k].kind = kind;
        self.claimed_at =
        Ghost(
            if refreshed matches Ok((_, replayed)) && !replayed {
                model::latest(self.claimed_at@, now)
            } else {
                self.claimed_at@
            },
        );
        match refreshed {
            Ok((lease, replayed)) => {
                // A replay does NOT extend the lease, so report the lease's
                // actual remaining time rather than a fresh full lease.
                let expires_seconds: u16 = if replayed {
                    leases::remaining_lease_seconds(lease.expiration, now)
                } else {
                    MAX_LEASE_SECS
                };
                Ok(
                    node_claim_assignment(
                        node_id,
                        source_net,
                        expires_seconds,
                        lease.refresh_token,
                    ),
                )
            },
            Err(RefreshDenied::Expired) => Err(AddressRefreshError::AlreadyExpired),
            Err(RefreshDenied::BadToken) => Err(AddressRefreshError::BadRequest),
            Err(RefreshDenied::TooSoon) => Err(AddressRefreshError::TooSoon),
        }
    }

    /// Whether a node may send on a bus, see [`model::node_claimed`].
    pub fn is_node_claimed(&self, net_id: u16, node_id: u8, now: Nanos) -> (r: bool)
        ensures
            r == model::node_claimed(self@, net_id, node_id, now),
    {
        // CENTRAL/EDGE are always valid for point-to-point compatibility.
        if node_id == CENTRAL_NODE_ID || node_id == EDGE_NODE_ID {
            return true;
        }
        // Scoped to the net_id the frame arrived on: a claim only validates
        // frames on its own bus segment. An expired claim is rejected
        // immediately, so a quiet bus can't keep a stale node_id alive.

        match self.node_claims.get(node_id, net_id) {
            Some(k) => self.node_claims.entries[k].kind.is_active(now),
            None => false,
        }
    }

    /// Whether a net is routed to, see [`model::transit`].
    pub fn is_transit_net(&mut self, net_id: u16, now: Nanos) -> (r: bool)
        requires
            old(self).wf(),
        ensures
            final(self).wf(),
            (final(self)@, r) == model::transit(old(self)@, net_id, now),
    {
        proof {
            laws::transit_keeps_wf(self@, net_id, now, N as nat, S as nat, C as nat);
        }
        if net_id == 0 {
            return false;
        }
        // Direct downstream segments (pending slots hold net_id=0 and are
        // excluded by the check above) and seed-assigned routes. Tombstoned seed
        // routes count too: a recently expired downstream net is still
        // known-not-ours and must not be adopted as the upstream's own.

        if self.slot_with_net(net_id).is_some() {
            return true;
        }
        self.seed_routes.contains_key_at(net_id, now)
    }
}

} // verus!

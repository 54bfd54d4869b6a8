//! What a router does, as mathematics.
//!
//! A router's state is a [`RouterView`]. Every operation is a function from
//! one state to the next and a result; time and tokens are arguments. Sending
//! is a relation, because each sink decides for itself whether it takes a
//! frame.

use vstd::prelude::*;
use crate::address::Address;
use crate::clock::Closer;
use crate::interface_manager::edge_port::{EdgePort, CENTRAL_NODE_ID, EDGE_NODE_ID};
use crate::interface_manager::lease_table;
use crate::interface_manager::lease_table::LeaseEntry;
use crate::interface_manager::leases;
use crate::interface_manager::leases::{
    Lease, LeaseKind, Nanos, RefreshDenied, TokenMatch, INITIAL_LEASE_SECS, MAX_LEASE_SECS,
    MIN_REFRESH_SECS, NANOS_PER_SEC, TOMBSTONE_DURATION_SECS,
};
use crate::interface_manager::{
    AddressClaimError, AddressRefreshError, DelegatedRefreshPreparation, Interface,
    InterfaceSendError, InterfaceState, NodeClaimAssignment, Payload, SeedAssignmentError,
    SeedLease, SeedNetAssignment, SeedRefreshError, SetStateError,
};
use crate::Header;

verus! {

/// Each delegation hop hands its downstream a `min_refresh_seconds` smaller
/// by this margin, so a child's refresh always lands inside the window where
/// the parent's own upstream refresh is accepted.
pub const SEED_DELEGATION_REFRESH_MARGIN: u16 = 5;

/// Reserved ident for the upstream interface (bridge mode).
///
/// A router can have at most 255 downstream interfaces (idents 0..254). The
/// upstream, if present, always uses this ident.
pub const UPSTREAM_IDENT: u8 = 255;

/// A directly connected downstream interface slot.
pub struct Slot<I: Interface> {
    pub ident: u8,
    pub port: EdgePort<I>,
    pub net_id: u16,
    pub closer: Option<Closer>,
}

/// The upstream interface port (bridge mode only).
pub struct UpstreamPort<I: Interface> {
    pub port: EdgePort<I>,
    pub closer: Option<Closer>,
}

/// Routing metadata for one seed-assigned network.
#[derive(Clone, Copy, Debug, PartialEq)]
pub struct SeedRoute {
    /// Direct downstream interface through which this network is reachable.
    pub via_ident: u8,
    /// Parent lease for delegated routes. Root-allocated routes have no
    /// parent because this router is their lease authority.
    pub parent: Option<SeedLease>,
}

/// Which port a frame leaves by.
#[derive(Clone, Copy, Debug, PartialEq, Eq, Structural)]
pub enum Route {
    /// The downstream slot at this position.
    Slot(usize),
    /// The upstream interface.
    Upstream,
}

/// Errors from registering an interface.
#[derive(Clone, Copy, Debug, PartialEq, Eq, Structural)]
pub enum RegisterError {
    /// All slots are occupied.
    Full,
    /// No free net_id is available (every net_id in `1..u16::MAX` is in use).
    NetIdsExhausted,
    /// Bridge downlinks must start pending and receive a root-issued net_id.
    BridgeRequiresSeedAssignment,
}

/// Errors from deregistering an interface.
#[derive(Clone, Copy, Debug, PartialEq, Eq, Structural)]
pub enum DeregisterError {
    /// No interface with the given ident exists.
    NotFound,
}

/// The state of a router.
#[verifier::ext_equal]
pub struct RouterView<I: Interface> {
    /// The downstream interfaces.
    pub slots: Seq<Slot<I>>,
    /// Seed-assigned routes. Key = assigned net_id, scope = requesting source
    /// net_id, extra = routing metadata and optional parent lease.
    pub seeds: Seq<LeaseEntry<u16, SeedRoute>>,
    /// Bus node_id claims. Key = node_id, scope = bus net_id, extra = nonce.
    pub claims: Seq<LeaseEntry<u8, u64>>,
    /// The upstream interface of a bridge.
    pub upstream: Option<UpstreamPort<I>>,
    /// The latest time at which a node claim was granted or extended.
    pub claimed_at: Nanos,
}

// ---------------------------------------------------------------------------
// Well-formedness
// ---------------------------------------------------------------------------
/// Whether a node_id can be claimed: 0 ("any"), the two point-to-point roles
/// and 255 (broadcast) cannot.
pub open spec fn claimable(node_id: u8) -> bool {
    node_id != 0 && node_id != CENTRAL_NODE_ID && node_id != EDGE_NODE_ID && node_id != 255
}

/// Whether a downstream segment has this net_id.
pub open spec fn has_net<I: Interface>(slots: Seq<Slot<I>>, net_id: u16) -> bool {
    exists|i: int| 0 <= i < slots.len() && (#[trigger] slots[i]).net_id == net_id
}

/// Whether a downstream interface has this ident.
pub open spec fn has_ident<I: Interface>(slots: Seq<Slot<I>>, ident: u8) -> bool {
    exists|i: int| 0 <= i < slots.len() && (#[trigger] slots[i]).ident == ident
}

/// There are at most `n` slots, with idents below `n` that are all different;
/// no two segments share a net_id (0 stands for "none yet").
pub open spec fn slots_wf<I: Interface>(slots: Seq<Slot<I>>, n: nat) -> bool {
    &&& slots.len() <= n <= 255
    &&& forall|i: int| 0 <= i < slots.len() ==> (#[trigger] slots[i]).ident < n
    &&& forall|i: int, j: int|
        0 <= i < j < slots.len() ==> (#[trigger] slots[i]).ident != (#[trigger] slots[j]).ident
    &&& forall|i: int, j: int|
        0 <= i < j < slots.len() ==> (#[trigger] slots[i]).net_id == (
        #[trigger] slots[j]).net_id ==> slots[i].net_id == 0
}

/// What holds of one seed route: its net is no direct segment's, an active one
/// leads to an interface that exists, and a delegated one has a parent lease
/// for the same net that leaves room for another hop.
pub open spec fn seed_wf<I: Interface>(slots: Seq<Slot<I>>, e: LeaseEntry<u16, SeedRoute>) -> bool {
    &&& e.key != 0 ==> !has_net(slots, e.key)
    &&& e.kind is Active ==> has_ident(slots, e.extra.via_ident)
    &&& e.extra.parent matches Some(parent) ==> parent.net_id == e.key
        && parent.min_refresh_seconds > SEED_DELEGATION_REFRESH_MARGIN
}

/// There are at most `n` seed routes, each well formed, for different nets.
pub open spec fn seeds_wf<I: Interface>(
    slots: Seq<Slot<I>>,
    seeds: Seq<LeaseEntry<u16, SeedRoute>>,
    n: nat,
) -> bool {
    &&& seeds.len() <= n
    &&& lease_table::unique_keys(seeds)
    &&& forall|k: int| 0 <= k < seeds.len() ==> seed_wf(slots, #[trigger] seeds[k])
}

/// What holds of one node claim: the node_id can be claimed, and the bus it is
/// claimed on exists.
pub open spec fn claim_wf<I: Interface>(slots: Seq<Slot<I>>, e: LeaseEntry<u8, u64>) -> bool {
    claimable(e.key) && e.scope != 0 && has_net(slots, e.scope)
}

/// There are at most `n` node claims, each well formed, and no node_id is
/// claimed twice on a bus.
pub open spec fn claims_wf<I: Interface>(
    slots: Seq<Slot<I>>,
    claims: Seq<LeaseEntry<u8, u64>>,
    n: nat,
) -> bool {
    &&& claims.len() <= n
    &&& lease_table::unique_pairs(claims)
    &&& forall|k: int| 0 <= k < claims.len() ==> claim_wf(slots, #[trigger] claims[k])
}

/// A lease does not run longer than the longest that is granted at `at`.
pub open spec fn lease_timely(kind: LeaseKind, at: Nanos) -> bool {
    kind matches LeaseKind::Active(lease) ==> lease.expiration <= leases::later(at, MAX_LEASE_SECS)
}

/// No claim runs longer than the longest lease that is granted at `at`.
pub open spec fn claims_timely(claims: Seq<LeaseEntry<u8, u64>>, at: Nanos) -> bool {
    forall|k: int| 0 <= k < claims.len() ==> lease_timely((#[trigger] claims[k]).kind, at)
}

/// The later of two times.
pub open spec fn latest(a: Nanos, b: Nanos) -> Nanos {
    if a < b {
        b
    } else {
        a
    }
}

/// The invariant of a router with room for `n` interfaces, `s` seed routes and
/// `c` node claims.
pub open spec fn router_wf<I: Interface>(v: RouterView<I>, n: nat, s: nat, c: nat) -> bool {
    &&& slots_wf(v.slots, n)
    &&& seeds_wf(v.slots, v.seeds, s)
    &&& claims_wf(v.slots, v.claims, c)
    &&& claims_timely(v.claims, v.claimed_at)
}

/// Claims stay timely as they expire or are dropped, and as time passes.
pub proof fn claims_timely_continues(
    claims: Seq<LeaseEntry<u8, u64>>,
    later: Seq<LeaseEntry<u8, u64>>,
    at: Nanos,
    at2: Nanos,
)
    requires
        claims_timely(claims, at),
        lease_table::continues(claims, later),
        at <= at2,
    ensures
        claims_timely(later, at2),
{
    assert forall|k: int| 0 <= k < later.len() implies lease_timely(
        (#[trigger] later[k]).kind,
        at2,
    ) by {
        let j = choose|j: int|
            0 <= j < claims.len() && lease_table::same_lease(#[trigger] claims[j], later[k]);
        assert(lease_timely(claims[j].kind, at));
    }
}

/// Seed routes stay well formed as they expire or are dropped.
pub proof fn seeds_wf_continues<I: Interface>(
    slots: Seq<Slot<I>>,
    seeds: Seq<LeaseEntry<u16, SeedRoute>>,
    later: Seq<LeaseEntry<u16, SeedRoute>>,
    n: nat,
)
    requires
        seeds_wf(slots, seeds, n),
        lease_table::continues(seeds, later),
    ensures
        seeds_wf(slots, later, n),
{
    assert forall|k: int| 0 <= k < later.len() implies seed_wf(slots, #[trigger] later[k]) by {
        let j = choose|j: int|
            0 <= j < seeds.len() && lease_table::same_lease(#[trigger] seeds[j], later[k]);
        assert(seed_wf(slots, seeds[j]));
    }
}

/// Node claims stay well formed as they expire or are dropped.
pub proof fn claims_wf_continues<I: Interface>(
    slots: Seq<Slot<I>>,
    claims: Seq<LeaseEntry<u8, u64>>,
    later: Seq<LeaseEntry<u8, u64>>,
    n: nat,
)
    requires
        claims_wf(slots, claims, n),
        lease_table::continues(claims, later),
    ensures
        claims_wf(slots, later, n),
{
    assert forall|k: int| 0 <= k < later.len() implies claim_wf(slots, #[trigger] later[k]) by {
        let j = choose|j: int|
            0 <= j < claims.len() && lease_table::same_lease(#[trigger] claims[j], later[k]);
        assert(claim_wf(slots, claims[j]));
    }
}

/// The router with its seed routes as they are at `now`.
pub open spec fn with_seeds_aged<I: Interface>(v: RouterView<I>, now: Nanos) -> RouterView<I> {
    RouterView { seeds: lease_table::table_aged(v.seeds, now), ..v }
}

/// The router with its node claims as they are at `now`.
pub open spec fn with_claims_aged<I: Interface>(v: RouterView<I>, now: Nanos) -> RouterView<I> {
    RouterView { claims: lease_table::table_aged(v.claims, now), ..v }
}

/// Aging keeps a router well formed.
pub proof fn aging_keeps_wf<I: Interface>(v: RouterView<I>, now: Nanos, n: nat, s: nat, c: nat)
    requires
        router_wf(v, n, s, c),
    ensures
        router_wf(with_seeds_aged(v, now), n, s, c),
        router_wf(with_claims_aged(v, now), n, s, c),
{
    lease_table::retained_continues(v.seeds, lease_table::entry_aged(now));
    lease_table::retained_continues(v.claims, lease_table::entry_aged(now));
    seeds_wf_continues(v.slots, v.seeds, lease_table::table_aged(v.seeds, now), s);
    claims_wf_continues(v.slots, v.claims, lease_table::table_aged(v.claims, now), c);
    claims_timely_continues(
        v.claims,
        lease_table::table_aged(v.claims, now),
        v.claimed_at,
        v.claimed_at,
    );
}

// ---------------------------------------------------------------------------
// Lookups and allocation
// ---------------------------------------------------------------------------
/// The slot of the segment with this net_id.
pub open spec fn slot_of_net<I: Interface>(slots: Seq<Slot<I>>, net_id: u16) -> Option<int> {
    lease_table::first_where(slots, |s: Slot<I>| s.net_id == net_id)
}

/// The slot of the interface with this ident.
pub open spec fn slot_of_ident<I: Interface>(slots: Seq<Slot<I>>, ident: u8) -> Option<int> {
    lease_table::first_where(slots, |s: Slot<I>| s.ident == ident)
}

/// The net_id of the upstream interface, if it has one.
pub open spec fn upstream_net<I: Interface>(v: RouterView<I>) -> Option<u16> {
    match v.upstream {
        Some(up) => up.port.state.net(),
        None => None,
    }
}

/// Whether `net_id` is currently in use by a direct slot, a seed route
/// (including tombstoned routes, whose net_id stays reserved for the grace
/// period), or the upstream interface.
pub open spec fn net_in_use<I: Interface>(v: RouterView<I>, net_id: u16) -> bool {
    ||| has_net(v.slots, net_id)
    ||| lease_table::holds_key(v.seeds, net_id)
    ||| upstream_net(v) == Some(net_id)
}

/// Whether `net_id` is the lowest free net_id in `1..u16::MAX`.
pub open spec fn is_lowest_free<I: Interface>(v: RouterView<I>, net_id: u16) -> bool {
    &&& 1 <= net_id < u16::MAX
    &&& !net_in_use(v, net_id)
    &&& forall|other: u16| 1 <= other < net_id ==> #[trigger] net_in_use(v, other)
}

/// The lowest free net_id in `1..u16::MAX`, if any is free. net_ids 0 and
/// `u16::MAX` are reserved.
pub open spec fn lowest_free<I: Interface>(v: RouterView<I>) -> Option<u16> {
    if exists|net_id: u16| is_lowest_free(v, net_id) {
        Some(choose|net_id: u16| is_lowest_free(v, net_id))
    } else {
        None
    }
}

/// Whether `ident` is the lowest ident below `n` that no interface has.
pub open spec fn is_lowest_ident<I: Interface>(slots: Seq<Slot<I>>, n: nat, ident: u8) -> bool {
    &&& ident < n
    &&& !has_ident(slots, ident)
    &&& forall|other: u8| other < ident ==> #[trigger] has_ident(slots, other)
}

/// The lowest ident below `n` that no interface has.
pub open spec fn lowest_ident<I: Interface>(slots: Seq<Slot<I>>, n: nat) -> u8 {
    choose|ident: u8| is_lowest_ident(slots, n, ident)
}

/// The lowest free net_id is unique.
pub proof fn lowest_free_is<I: Interface>(v: RouterView<I>, net_id: u16)
    requires
        is_lowest_free(v, net_id),
    ensures
        lowest_free(v) == Some(net_id),
{
    let k = choose|k: u16| is_lowest_free(v, k);
    assert(is_lowest_free(v, k));
    if k < net_id {
        assert(net_in_use(v, k));
    } else if net_id < k {
        assert(net_in_use(v, net_id));
    }
}

/// As long as not every slot is taken there is a free ident: `m` different
/// idents take `m` slots.
pub proof fn free_ident_exists<I: Interface>(slots: Seq<Slot<I>>, m: nat)
    requires
        m <= 255,
        forall|id: u8| id < m ==> #[trigger] has_ident(slots, id),
        forall|i: int, j: int|
            0 <= i < j < slots.len() ==> (#[trigger] slots[i]).ident != (#[trigger] slots[j]).ident,
    ensures
        m <= slots.len(),
    decreases m,
{
    if m > 0 {
        let id = (m - 1) as u8;
        assert(has_ident(slots, id));
        let pos = choose|i: int| 0 <= i < slots.len() && (#[trigger] slots[i]).ident == id;
        let rest = slots.remove(pos);
        assert forall|k: u8| k < m - 1 implies #[trigger] has_ident(rest, k) by {
            assert(has_ident(slots, k));
            let i = choose|i: int| 0 <= i < slots.len() && (#[trigger] slots[i]).ident == k;
            if i < pos {
                assert(rest[i].ident == k);
            } else {
                assert(rest[i - 1].ident == k);
            }
        }
        free_ident_exists(rest, (m - 1) as nat);
    }
}

// ---------------------------------------------------------------------------
// Interfaces
// ---------------------------------------------------------------------------
/// A new downstream slot.
pub open spec fn new_slot<I: Interface>(
    ident: u8,
    sink: I::Sink,
    state: InterfaceState,
    net_id: u16,
) -> Slot<I> {
    Slot {
        ident,
        port: EdgePort {
            sink,
            state,
            own_node_id: CENTRAL_NODE_ID,
            other_node_id: EDGE_NODE_ID,
        },
        net_id,
        closer: None,
    }
}

/// Registering a downstream interface at `now`: it gets the lowest free ident
/// and the lowest free net_id and is active at once. A bridge must not number
/// its segments itself.
pub open spec fn registered<I: Interface>(
    v: RouterView<I>,
    sink: I::Sink,
    n: nat,
    now: Nanos,
) -> (RouterView<I>, Result<u8, RegisterError>) {
    if v.upstream is Some {
        (v, Err(RegisterError::BridgeRequiresSeedAssignment))
    } else {
        let v1 = with_seeds_aged(v, now);
        if v1.slots.len() == n {
            (v1, Err(RegisterError::Full))
        } else {
            match lowest_free(v1) {
                None => (v1, Err(RegisterError::NetIdsExhausted)),
                Some(net_id) => {
                    let ident = lowest_ident(v1.slots, n);
                    let state = InterfaceState::Active { net_id, node_id: CENTRAL_NODE_ID };
                    let slot = new_slot(ident, sink, state, net_id);
                    (RouterView { slots: v1.slots.push(slot), ..v1 }, Ok(ident))
                },
            }
        }
    }
}

/// Registering a downstream interface that has no net_id yet: it is down until
/// it is given one.
pub open spec fn registered_pending<I: Interface>(v: RouterView<I>, sink: I::Sink, n: nat) -> (
    RouterView<I>,
    Result<u8, RegisterError>,
) {
    if v.slots.len() == n {
        (v, Err(RegisterError::Full))
    } else {
        let ident = lowest_ident(v.slots, n);
        let slot = new_slot(ident, sink, InterfaceState::Down, 0);
        (RouterView { slots: v.slots.push(slot), ..v }, Ok(ident))
    }
}

/// The seed routes with those through `ident` tombstoned until `clear_time`.
pub open spec fn tombstoned_via(
    seeds: Seq<LeaseEntry<u16, SeedRoute>>,
    ident: u8,
    clear_time: Nanos,
) -> Seq<LeaseEntry<u16, SeedRoute>> {
    seeds.map_values(
        |e: LeaseEntry<u16, SeedRoute>|
            if e.extra.via_ident == ident {
                LeaseEntry { kind: LeaseKind::Tombstone { clear_time }, ..e }
            } else {
                e
            },
    )
}

/// The signal to the workers of the downstream interface with the given ident.
pub open spec fn closer_of<I: Interface>(v: RouterView<I>, ident: u8) -> Option<Closer> {
    match slot_of_ident(v.slots, ident) {
        Some(pos) => v.slots[pos].closer,
        None => None,
    }
}

/// Removing a downstream interface at `now`: the routes through it are
/// tombstoned for the grace period, and the node claims on its bus are gone.
pub open spec fn deregistered<I: Interface>(v: RouterView<I>, ident: u8, now: Nanos) -> (
    RouterView<I>,
    Result<(), DeregisterError>,
) {
    match slot_of_ident(v.slots, ident) {
        None => (v, Err(DeregisterError::NotFound)),
        Some(pos) => (
            RouterView {
                slots: v.slots.update(pos, v.slots.last()).drop_last(),
                seeds: tombstoned_via(
                    v.seeds,
                    ident,
                    leases::later(now, TOMBSTONE_DURATION_SECS),
                ),
                claims: lease_table::retained(
                    v.claims,
                    lease_table::outside_scope(v.slots[pos].net_id),
                ),
                ..v
            },
            Ok(()),
        ),
    }
}

/// The net_ids of the active ones among the first `k` slots.
pub open spec fn active_nets<I: Interface>(slots: Seq<Slot<I>>, k: nat) -> Seq<u16>
    decreases k,
{
    if k == 0 {
        Seq::empty()
    } else {
        let before = active_nets(slots, (k - 1) as nat);
        match slots[k - 1].port.state.net() {
            Some(net_id) => before.push(net_id),
            None => before,
        }
    }
}

/// The state of the interface with the given ident.
pub open spec fn state_of<I: Interface>(v: RouterView<I>, ident: u8) -> Option<InterfaceState> {
    if ident == UPSTREAM_IDENT {
        match v.upstream {
            Some(up) => Some(up.port.state),
            None => None,
        }
    } else {
        match slot_of_ident(v.slots, ident) {
            Some(pos) => Some(v.slots[pos].port.state),
            None => None,
        }
    }
}

/// The slots with the port at `pos` replaced.
pub open spec fn with_slot_port<I: Interface>(
    slots: Seq<Slot<I>>,
    pos: int,
    port: EdgePort<I>,
) -> Seq<Slot<I>> {
    slots.update(pos, Slot { port, ..slots[pos] })
}

/// Setting the state of the interface with the given ident.
pub open spec fn state_set<I: Interface>(v: RouterView<I>, ident: u8, state: InterfaceState) -> (
    RouterView<I>,
    Result<(), SetStateError>,
) {
    if ident == UPSTREAM_IDENT {
        match v.upstream {
            None => (v, Err(SetStateError::InterfaceNotFound)),
            Some(up) => match up.port.with_state(state) {
                Ok(port) => (
                    RouterView { upstream: Some(UpstreamPort { port, ..up }), ..v },
                    Ok(()),
                ),
                Err(e) => (v, Err(e)),
            },
        }
    } else {
        match slot_of_ident(v.slots, ident) {
            None => (v, Err(SetStateError::InterfaceNotFound)),
            Some(pos) => match v.slots[pos].port.with_state(state) {
                Ok(port) => (
                    RouterView { slots: with_slot_port(v.slots, pos, port), ..v },
                    Ok(()),
                ),
                Err(e) => (v, Err(e)),
            },
        }
    }
}

/// Whether `net_id` is taken by anything but the interface `ident` itself.
pub open spec fn net_taken<I: Interface>(v: RouterView<I>, ident: u8, net_id: u16) -> bool {
    ||| exists|i: int|
        0 <= i < v.slots.len() && (#[trigger] v.slots[i]).ident != ident && v.slots[i].net_id
            == net_id
    ||| lease_table::holds_key(v.seeds, net_id)
    ||| upstream_net(v) == Some(net_id)
}

/// Giving a downstream interface a new net_id: it is active under it at once,
/// and the node claims on its old segment are gone.
pub open spec fn reassigned<I: Interface>(v: RouterView<I>, ident: u8, new_net_id: u16) -> (
    RouterView<I>,
    Result<(), SetStateError>,
) {
    if new_net_id == 0 || net_taken(v, ident, new_net_id) {
        (v, Err(SetStateError::NetIdInUse))
    } else {
        match slot_of_ident(v.slots, ident) {
            None => (v, Err(SetStateError::InterfaceNotFound)),
            Some(pos) => {
                let slot = v.slots[pos];
                let state = InterfaceState::Active {
                    net_id: new_net_id,
                    node_id: CENTRAL_NODE_ID,
                };
                let port = EdgePort { state, own_node_id: CENTRAL_NODE_ID, ..slot.port };
                (
                    RouterView {
                        slots: v.slots.update(pos, Slot { port, net_id: new_net_id, ..slot }),
                        claims: if slot.net_id != new_net_id {
                            lease_table::retained(
                                v.claims,
                                lease_table::outside_scope(slot.net_id),
                            )
                        } else {
                            v.claims
                        },
                        ..v
                    },
                    Ok(()),
                )
            },
        }
    }
}

// ---------------------------------------------------------------------------
// Routing
// ---------------------------------------------------------------------------
/// The way out of the upstream interface, which a frame that came in there
/// does not take.
pub open spec fn route_upstream<I: Interface>(v: RouterView<I>, source: Option<u8>) -> Result<
    Route,
    InterfaceSendError,
> {
    if v.upstream is None {
        Err(InterfaceSendError::NoRouteToDest)
    } else if source == Some(UPSTREAM_IDENT) {
        Err(InterfaceSendError::RoutingLoop)
    } else {
        Ok(Route::Upstream)
    }
}

/// Which way a frame goes at `now`, given the seed routes as they are then:
/// direct segments first, then active seed routes, then the upstream.
pub open spec fn route<I: Interface>(
    v: RouterView<I>,
    hdr: Header,
    source: Option<u8>,
    now: Nanos,
) -> Result<Route, InterfaceSendError> {
    let net = hdr.dst.network_id;
    let direct = if net == 0 {
        None
    } else {
        slot_of_net(v.slots, net)
    };
    match direct {
        Some(pos) => if hdr.dst.node_id == CENTRAL_NODE_ID {
            Err(InterfaceSendError::DestinationLocal)
        } else if source == Some(v.slots[pos].ident) {
            Err(InterfaceSendError::RoutingLoop)
        } else {
            Ok(Route::Slot(pos as usize))
        },
        None => match lease_table::first_where(v.seeds, lease_table::about_key(net)) {
            None => route_upstream(v, source),
            Some(k) => {
                let via = v.seeds[k].extra.via_ident;
                if !v.seeds[k].kind.active_at(now) {
                    Err(InterfaceSendError::NoRouteToDest)
                } else if source == Some(via) {
                    Err(InterfaceSendError::RoutingLoop)
                } else {
                    match slot_of_ident(v.slots, via) {
                        Some(pos) => Ok(Route::Slot(pos as usize)),
                        None => Err(InterfaceSendError::NoRouteToDest),
                    }
                }
            },
        },
    }
}

/// Finding the way for a frame: the seed routes are brought up to date first.
pub open spec fn found<I: Interface>(
    v: RouterView<I>,
    hdr: Header,
    source: Option<u8>,
    now: Nanos,
) -> (RouterView<I>, Result<Route, InterfaceSendError>) {
    if hdr.dst.port_id == 0 && hdr.any_all is None {
        (v, Err(InterfaceSendError::AnyPortMissingKey))
    } else {
        let v1 = with_seeds_aged(v, now);
        (v1, route(v1, hdr, source, now))
    }
}

/// Sending to one destination: the frame goes out of exactly one port, or of
/// none.
pub open spec fn unicast<I: Interface>(
    before: RouterView<I>,
    after: RouterView<I>,
    hdr: Header,
    what: Payload,
    source: Option<u8>,
    now: Nanos,
    r: Result<(), InterfaceSendError>,
) -> bool {
    let (v1, way) = found(before, hdr, source, now);
    match way {
        Err(e) => r == Err::<(), _>(e) && after == v1,
        Ok(Route::Slot(pos)) => {
            let port = after.slots[pos as int].port;
            &&& EdgePort::sent(v1.slots[pos as int].port, port, hdr, what, r)
            &&& after == (RouterView { slots: with_slot_port(v1.slots, pos as int, port), ..v1 })
        },
        Ok(Route::Upstream) => {
            &&& after.upstream is Some
            &&& EdgePort::sent(v1.upstream->0.port, after.upstream->0.port, hdr, what, r)
            &&& after == (RouterView {
                upstream: Some(
                    UpstreamPort { port: after.upstream->0.port, ..v1.upstream->0 },
                ),
                ..v1
            })
        },
    }
}

/// The header of a broadcast as it goes out on one downstream segment.
pub open spec fn leg_header(hdr: Header, net_id: u16) -> Header {
    Header {
        dst: Address { network_id: net_id, node_id: EDGE_NODE_ID, port_id: hdr.dst.port_id },
        ..hdr
    }
}

/// Whether a broadcast is tried on a slot: a message that originates here goes
/// to every segment that has a net_id, one that is passed on goes to every
/// interface but its source.
pub open spec fn leg_tried<I: Interface>(slot: Slot<I>, source: Option<u8>) -> bool {
    match source {
        None => slot.net_id != 0,
        Some(ident) => slot.ident != ident,
    }
}

/// The header with which a broadcast reaches the upstream once the first `k`
/// slots are done. A message that is passed on carries the destination of the
/// last segment that it was tried on; the upstream port sets its own.
pub open spec fn upstream_leg_header<I: Interface>(
    slots: Seq<Slot<I>>,
    hdr: Header,
    source: Option<u8>,
    k: nat,
) -> Header
    decreases k,
{
    if k == 0 || source is None {
        hdr
    } else if leg_tried(slots[k - 1], source) {
        leg_header(hdr, slots[k - 1].net_id)
    } else {
        upstream_leg_header(slots, hdr, source, (k - 1) as nat)
    }
}

/// Whether an error on one leg of a broadcast is a genuine failure of an
/// interface that exists and was tried. "No recipient here" is none.
pub open spec fn genuine_failure(e: InterfaceSendError) -> bool {
    &&& e != InterfaceSendError::NoRouteToDest
    &&& e != InterfaceSendError::RoutingLoop
    &&& e != InterfaceSendError::DestinationLocal
}

/// What is known of a broadcast so far: whether any leg succeeded, and the
/// last genuine failure.
pub open spec fn leg_folded(
    acc: (bool, Option<InterfaceSendError>),
    leg: Option<Result<(), InterfaceSendError>>,
) -> (bool, Option<InterfaceSendError>) {
    match leg {
        None => acc,
        Some(Ok(_)) => (true, acc.1),
        Some(Err(e)) => if genuine_failure(e) {
            (acc.0, Some(e))
        } else {
            acc
        },
    }
}

/// What is known of a broadcast after all its legs.
pub open spec fn legs_folded(legs: Seq<Option<Result<(), InterfaceSendError>>>) -> (
    bool,
    Option<InterfaceSendError>,
)
    decreases legs.len(),
{
    if legs.len() == 0 {
        (false, None)
    } else {
        leg_folded(legs_folded(legs.drop_last()), legs.last())
    }
}

/// The result of a broadcast: success if any leg succeeded, else the last
/// genuine failure, else `fallback`.
pub open spec fn broadcast_result(
    acc: (bool, Option<InterfaceSendError>),
    fallback: InterfaceSendError,
) -> Result<(), InterfaceSendError> {
    if acc.0 {
        Ok(())
    } else {
        match acc.1 {
            Some(e) => Err(e),
            None => Err(fallback),
        }
    }
}

/// The first `k` slots have had their leg of a broadcast.
pub open spec fn slot_legs<I: Interface>(
    before: Seq<Slot<I>>,
    after: Seq<Slot<I>>,
    hdr: Header,
    what: Payload,
    source: Option<u8>,
    legs: Seq<Option<Result<(), InterfaceSendError>>>,
    k: nat,
) -> bool {
    &&& after.len() == before.len()
    &&& k <= legs.len()
    &&& forall|i: int|
        0 <= i < k ==> {
            let leg = #[trigger] legs[i];
            let port = after[i].port;
            if leg_tried(before[i], source) {
                &&& leg is Some
                &&& EdgePort::sent(
                    before[i].port,
                    port,
                    leg_header(hdr, before[i].net_id),
                    what,
                    leg->0,
                )
                &&& after[i] == (Slot { port, ..before[i] })
            } else {
                leg is None && after[i] == before[i]
            }
        }
}

/// The upstream has had its leg of a broadcast.
pub open spec fn upstream_leg<I: Interface>(
    before: RouterView<I>,
    after: Option<UpstreamPort<I>>,
    hdr: Header,
    what: Payload,
    source: Option<u8>,
    leg: Option<Result<(), InterfaceSendError>>,
) -> bool {
    if before.upstream is Some && source != Some(UPSTREAM_IDENT) {
        &&& leg is Some
        &&& after is Some
        &&& EdgePort::sent(
            before.upstream->0.port,
            after->0.port,
            upstream_leg_header(before.slots, hdr, source, before.slots.len()),
            what,
            leg->0,
        )
        &&& after->0 == (UpstreamPort { port: after->0.port, ..before.upstream->0 })
    } else {
        leg is None && after == before.upstream
    }
}

/// Whether a broadcast is tried anywhere.
pub open spec fn any_leg<I: Interface>(v: RouterView<I>, source: Option<u8>) -> bool {
    ||| exists|i: int| 0 <= i < v.slots.len() && leg_tried(#[trigger] v.slots[i], source)
    ||| v.upstream is Some && source != Some(UPSTREAM_IDENT)
}

/// Sending to everyone: the frame is tried once on every interface that it is
/// meant for, never on its source, and the leases are not touched.
pub open spec fn broadcast<I: Interface>(
    before: RouterView<I>,
    after: RouterView<I>,
    hdr: Header,
    what: Payload,
    source: Option<u8>,
    r: Result<(), InterfaceSendError>,
) -> bool {
    if hdr.any_all is None {
        r == Err::<(), _>(InterfaceSendError::AnyPortMissingKey) && after == before
    } else if source is Some && before.slots.len() == 0 && before.upstream is None {
        r == Err::<(), _>(InterfaceSendError::NoRouteToDest) && after == before
    } else {
        let fallback = if source is Some && !any_leg(before, source) {
            InterfaceSendError::RoutingLoop
        } else {
            InterfaceSendError::NoRouteToDest
        };
        &&& after.seeds == before.seeds
        &&& after.claims == before.claims
        &&& after.claimed_at == before.claimed_at
        &&& exists|legs: Seq<Option<Result<(), InterfaceSendError>>>|
            {
                &&& legs.len() == before.slots.len() + 1
                &&& slot_legs(
                    before.slots,
                    after.slots,
                    hdr,
                    what,
                    source,
                    legs,
                    before.slots.len(),
                )
                &&& upstream_leg(before, after.upstream, hdr, what, source, legs.last())
                &&& r == broadcast_result(#[trigger] legs_folded(legs), fallback)
            }
    }
}

/// Sending a frame at `now`. A message that originates here has no source. Each
/// send is one hop; errors are never broadcast.
pub open spec fn sent<I: Interface>(
    before: RouterView<I>,
    after: RouterView<I>,
    hdr: Header,
    what: Payload,
    source: Option<u8>,
    now: Nanos,
    r: Result<(), InterfaceSendError>,
) -> bool {
    match hdr.decremented() {
        Err(e) => r == Err::<(), _>(e) && after == before,
        Ok(h) => if h.dst.port_id == 255 && !(what is Error) {
            broadcast(before, after, h, what, source, r)
        } else {
            unicast(before, after, h, what, source, now, r)
        },
    }
}

// ---------------------------------------------------------------------------
// Seed routes
// ---------------------------------------------------------------------------
/// The router with one more seed route.
pub open spec fn with_seed<I: Interface>(
    v: RouterView<I>,
    net_id: u16,
    source_net: u16,
    extra: SeedRoute,
    kind: LeaseKind,
) -> RouterView<I> {
    RouterView {
        seeds: v.seeds.push(LeaseEntry { key: net_id, scope: source_net, extra, kind }),
        ..v
    }
}

/// Checks, at `now`, whether a network can be leased to a requester on segment
/// `source_net`: the interface it is reached by and the network, or why not.
pub open spec fn seed_checked<I: Interface>(
    v: RouterView<I>,
    source_net: u16,
    cap: nat,
    now: Nanos,
) -> (RouterView<I>, Result<(u8, u16), SeedAssignmentError>) {
    if v.upstream is Some {
        (v, Err(SeedAssignmentError::ProfileCantSeed))
    } else if source_net == 0 {
        (v, Err(SeedAssignmentError::UnknownSource))
    } else {
        let v1 = with_seeds_aged(v, now);
        match slot_of_net(v1.slots, source_net) {
            None => (v1, Err(SeedAssignmentError::UnknownSource)),
            Some(pos) => if v1.seeds.len() == cap {
                (v1, Err(SeedAssignmentError::NetIdsExhausted))
            } else {
                match lowest_free(v1) {
                    None => (v1, Err(SeedAssignmentError::NetIdsExhausted)),
                    Some(net_id) => (v1, Ok((v1.slots[pos].ident, net_id))),
                }
            },
        }
    }
}

/// Leasing a network to a requester on segment `source_net`: it gets the lowest
/// free net_id for [`INITIAL_LEASE_SECS`]. Only a root router does this.
pub open spec fn seed_assigned<I: Interface>(
    v: RouterView<I>,
    source_net: u16,
    cap: nat,
    now: Nanos,
    token: u64,
) -> (RouterView<I>, Result<SeedNetAssignment, SeedAssignmentError>) {
    let (v1, checked) = seed_checked(v, source_net, cap, now);
    match checked {
        Err(e) => (v1, Err(e)),
        Ok((via_ident, net_id)) => (
            with_seed(
                v1,
                net_id,
                source_net,
                SeedRoute { via_ident, parent: None },
                LeaseKind::fresh(now, INITIAL_LEASE_SECS, token),
            ),
            Ok(
                SeedNetAssignment {
                    net_id,
                    expires_seconds: INITIAL_LEASE_SECS,
                    max_refresh_seconds: MAX_LEASE_SECS,
                    min_refresh_seconds: MIN_REFRESH_SECS,
                    refresh_token: leases::token_bytes(token),
                },
            ),
        ),
    }
}

/// Whether a delegated route can be registered for a requester on segment
/// `source_net`.
pub open spec fn delegation_possible<I: Interface>(
    v: RouterView<I>,
    source_net: u16,
    cap: nat,
    now: Nanos,
) -> (RouterView<I>, Result<(), SeedAssignmentError>) {
    let v1 = with_seeds_aged(v, now);
    if source_net == 0 || !has_net(v1.slots, source_net) {
        (v1, Err(SeedAssignmentError::UnknownSource))
    } else if v1.seeds.len() == cap {
        (v1, Err(SeedAssignmentError::NetIdsExhausted))
    } else {
        (v1, Ok(()))
    }
}

/// What a bridge hands to its downstream for a lease that it holds: a token of
/// its own, and a refresh window smaller by the margin.
pub open spec fn delegated(parent: SeedLease, token: u64, expires_seconds: u16) -> SeedNetAssignment {
    SeedNetAssignment {
        net_id: parent.net_id,
        expires_seconds,
        max_refresh_seconds: parent.max_refresh_seconds,
        min_refresh_seconds: (parent.min_refresh_seconds - SEED_DELEGATION_REFRESH_MARGIN) as u16,
        refresh_token: leases::token_bytes(token),
    }
}

/// Checks, at `now`, whether the lease `parent` can be passed on to a requester
/// on segment `source_net`, and makes room for it: an older route for the same
/// network is dropped. The result is the interface the requester is reached by.
pub open spec fn delegation_checked<I: Interface>(
    v: RouterView<I>,
    source_net: u16,
    parent: SeedLease,
    cap: nat,
    now: Nanos,
) -> (RouterView<I>, Result<u8, SeedAssignmentError>) {
    let v1 = with_seeds_aged(v, now);
    if source_net == 0 {
        (v1, Err(SeedAssignmentError::UnknownSource))
    } else {
        match slot_of_net(v1.slots, source_net) {
            None => (v1, Err(SeedAssignmentError::UnknownSource)),
            Some(pos) => if has_net(v1.slots, parent.net_id) || upstream_net(v1) == Some(
                parent.net_id,
            ) {
                (v1, Err(SeedAssignmentError::NetIdCollision))
            } else if parent.min_refresh_seconds <= SEED_DELEGATION_REFRESH_MARGIN {
                (v1, Err(SeedAssignmentError::DelegationDepthExceeded))
            } else {
                let v2 = RouterView {
                    seeds: lease_table::retained(v1.seeds, lease_table::other_key(parent.net_id)),
                    ..v1
                };
                if v2.seeds.len() == cap {
                    (v2, Err(SeedAssignmentError::NetIdsExhausted))
                } else {
                    (v2, Ok(v1.slots[pos].ident))
                }
            },
        }
    }
}

/// Passing on the lease `parent`, which the upstream seed router granted, to a
/// requester on segment `source_net`. The route lasts as long as the lease.
pub open spec fn delegation_registered<I: Interface>(
    v: RouterView<I>,
    source_net: u16,
    parent: SeedLease,
    cap: nat,
    now: Nanos,
    token: u64,
) -> (RouterView<I>, Result<SeedNetAssignment, SeedAssignmentError>) {
    let (v1, checked) = delegation_checked(v, source_net, parent, cap, now);
    match checked {
        Err(e) => (v1, Err(e)),
        Ok(via_ident) => (
            with_seed(
                v1,
                parent.net_id,
                source_net,
                SeedRoute { via_ident, parent: Some(parent) },
                LeaseKind::fresh(now, parent.expires_seconds, token),
            ),
            Ok(delegated(parent, token, parent.expires_seconds)),
        ),
    }
}

/// The router with the seed route at `k` replaced.
pub open spec fn with_seed_at<I: Interface>(
    v: RouterView<I>,
    k: int,
    e: LeaseEntry<u16, SeedRoute>,
) -> RouterView<I> {
    RouterView { seeds: v.seeds.update(k, e), ..v }
}

/// How the holder of a seed route is told that a token is no good.
pub open spec fn seed_denied(denied: RefreshDenied) -> SeedRefreshError {
    match denied {
        RefreshDenied::Expired => SeedRefreshError::AlreadyExpired,
        _ => SeedRefreshError::BadRequest,
    }
}

/// Checking a delegated refresh request before the parent router is asked. The
/// current token leads to the parent lease; the immediately previous one
/// replays the last committed response.
pub open spec fn refresh_prepared<I: Interface>(
    v: RouterView<I>,
    source_net: u16,
    refresh_net: u16,
    req_token: u64,
    now: Nanos,
) -> (RouterView<I>, Result<DelegatedRefreshPreparation, SeedRefreshError>) {
    let v1 = with_seeds_aged(v, now);
    match lease_table::first_where(v1.seeds, lease_table::about_key(refresh_net)) {
        None => (v1, Err(SeedRefreshError::UnknownNetId)),
        Some(k) => {
            let e = v1.seeds[k];
            if e.scope != source_net {
                (v1, Err(SeedRefreshError::BadRequest))
            } else {
                let (kind, checked) = e.kind.validated(req_token, now, true);
                let v2 = with_seed_at(v1, k, LeaseEntry { kind, ..e });
                match checked {
                    Err(denied) => (v2, Err(seed_denied(denied))),
                    Ok(which) => match e.extra.parent {
                        None => (v2, Err(SeedRefreshError::NotAssigned)),
                        Some(parent) => if which == TokenMatch::Current {
                            (v2, Ok(DelegatedRefreshPreparation::Forward(parent)))
                        } else {
                            let lease = kind->Active_0;
                            (
                                v2,
                                Ok(
                                    DelegatedRefreshPreparation::Replay(
                                        delegated(
                                            parent,
                                            lease.refresh_token,
                                            leases::remaining_seconds(lease.expiration, now),
                                        ),
                                    ),
                                ),
                            )
                        },
                    },
                }
            }
        },
    }
}

/// Committing a refresh that the parent router granted: the parent lease is
/// replaced, the route lasts as long as it does, and the token changes.
pub open spec fn refresh_committed<I: Interface>(
    v: RouterView<I>,
    source_net: u16,
    req_token: u64,
    parent: SeedLease,
    now: Nanos,
    token: u64,
) -> (RouterView<I>, Result<SeedNetAssignment, SeedRefreshError>) {
    if parent.min_refresh_seconds <= SEED_DELEGATION_REFRESH_MARGIN {
        (v, Err(SeedRefreshError::DelegationDepthExceeded))
    } else {
        match lease_table::first_where(
            v.seeds,
            lease_table::about_pair(parent.net_id, source_net),
        ) {
            None => (v, Err(SeedRefreshError::UnknownNetId)),
            Some(k) => {
                let e = v.seeds[k];
                let (kind, checked) = e.kind.validated(req_token, now, false);
                match checked {
                    Err(denied) => (
                        with_seed_at(v, k, LeaseEntry { kind, ..e }),
                        Err(seed_denied(denied)),
                    ),
                    Ok(_) => if e.extra.parent is None {
                        (v, Err(SeedRefreshError::NotAssigned))
                    } else {
                        let lease = Lease {
                            expiration: leases::later(now, parent.expires_seconds),
                            refresh_token: token,
                            previous_refresh_token: Some((kind->Active_0).refresh_token),
                        };
                        let extra = SeedRoute { parent: Some(parent), ..e.extra };
                        (
                            with_seed_at(
                                v,
                                k,
                                LeaseEntry { kind: LeaseKind::Active(lease), extra, ..e },
                            ),
                            Ok(delegated(parent, token, parent.expires_seconds)),
                        )
                    },
                }
            },
        }
    }
}

/// Checking a delegated release before the parent router is asked.
pub open spec fn release_prepared<I: Interface>(
    v: RouterView<I>,
    source_net: u16,
    release_net: u16,
    req_token: u64,
    now: Nanos,
) -> (RouterView<I>, Result<SeedLease, SeedRefreshError>) {
    let v1 = with_seeds_aged(v, now);
    match lease_table::first_where(v1.seeds, lease_table::about_pair(release_net, source_net)) {
        None => (v1, Err(SeedRefreshError::UnknownNetId)),
        Some(k) => {
            let e = v1.seeds[k];
            let (kind, checked) = e.kind.validated(req_token, now, false);
            let v2 = with_seed_at(v1, k, LeaseEntry { kind, ..e });
            match checked {
                Err(denied) => (v2, Err(seed_denied(denied))),
                Ok(_) => match e.extra.parent {
                    Some(parent) => (v2, Ok(parent)),
                    None => (v2, Err(SeedRefreshError::NotAssigned)),
                },
            }
        },
    }
}

/// Removing a seed route at the request of its holder.
pub open spec fn released<I: Interface>(
    v: RouterView<I>,
    source_net: u16,
    release_net: u16,
    req_token: u64,
    now: Nanos,
) -> (RouterView<I>, Result<(), SeedRefreshError>) {
    match lease_table::first_where(v.seeds, lease_table::about_pair(release_net, source_net)) {
        None => (v, Err(SeedRefreshError::UnknownNetId)),
        Some(k) => {
            let e = v.seeds[k];
            let (kind, checked) = e.kind.validated(req_token, now, false);
            match checked {
                Err(denied) => (
                    with_seed_at(v, k, LeaseEntry { kind, ..e }),
                    Err(seed_denied(denied)),
                ),
                Ok(_) => (
                    RouterView {
                        seeds: lease_table::retained(
                            v.seeds,
                            lease_table::other_pair(release_net, source_net),
                        ),
                        ..v
                    },
                    Ok(()),
                ),
            }
        },
    }
}

/// Refreshing a seed route that this router granted itself.
pub open spec fn seed_refreshed<I: Interface>(
    v: RouterView<I>,
    source_net: u16,
    refresh_net: u16,
    req_token: u64,
    now: Nanos,
    token: u64,
) -> (RouterView<I>, Result<SeedNetAssignment, SeedRefreshError>) {
    match lease_table::first_where(v.seeds, lease_table::about_pair(refresh_net, source_net)) {
        None => (v, Err(SeedRefreshError::UnknownNetId)),
        Some(k) => {
            let e = v.seeds[k];
            let (kind, refreshed) = e.kind.refreshed(req_token, now, token, true);
            (
                with_seed_at(v, k, LeaseEntry { kind, ..e }),
                match refreshed {
                    Ok((lease, replayed)) => Ok(
                        SeedNetAssignment {
                            net_id: refresh_net,
                            expires_seconds: if replayed {
                                leases::remaining_seconds(lease.expiration, now)
                            } else {
                                MAX_LEASE_SECS
                            },
                            max_refresh_seconds: MAX_LEASE_SECS,
                            min_refresh_seconds: MIN_REFRESH_SECS,
                            refresh_token: leases::token_bytes(lease.refresh_token),
                        },
                    ),
                    Err(RefreshDenied::Expired) => Err(SeedRefreshError::AlreadyExpired),
                    Err(RefreshDenied::BadToken) => Err(SeedRefreshError::BadRequest),
                    Err(RefreshDenied::TooSoon) => Err(SeedRefreshError::TooSoon),
                },
            )
        },
    }
}

// ---------------------------------------------------------------------------
// Node claims
// ---------------------------------------------------------------------------
/// The whole seconds left of a lease, as far as 16 bits go.
pub open spec fn whole_seconds(expiration: Nanos, now: Nanos) -> u16 {
    if expiration <= now {
        0
    } else {
        ((expiration - now) / (NANOS_PER_SEC as int) % 65536) as u16
    }
}

/// What the holder of a node claim is told.
pub open spec fn claim_assignment(
    node_id: u8,
    net_id: u16,
    expires_seconds: u16,
    token: u64,
) -> NodeClaimAssignment {
    NodeClaimAssignment {
        node_id,
        net_id,
        expires_seconds,
        max_refresh_seconds: MAX_LEASE_SECS,
        min_refresh_seconds: MIN_REFRESH_SECS,
        refresh_token: leases::token_bytes(token),
    }
}

/// Checks, at `now`, whether a device on bus `source_net` can have the node_id
/// `candidate`. A device that repeats its own request, which it shows by its
/// nonce, gets the assignment that it already has; `None` stands for a node_id
/// that is free.
pub open spec fn claim_checked<I: Interface>(
    v: RouterView<I>,
    source_net: u16,
    candidate: u8,
    nonce: u64,
    cap: nat,
    now: Nanos,
) -> (RouterView<I>, Result<Option<NodeClaimAssignment>, AddressClaimError>) {
    if !claimable(candidate) {
        (v, Err(AddressClaimError::InvalidNodeId))
    } else {
        let v1 = with_claims_aged(v, now);
        if source_net == 0 || !has_net(v1.slots, source_net) {
            (v1, Err(AddressClaimError::UnknownSource))
        } else {
            match lease_table::first_where(
                v1.claims,
                lease_table::about_pair(candidate, source_net),
            ) {
                Some(k) => {
                    let e = v1.claims[k];
                    match e.kind {
                        LeaseKind::Active(lease) => if e.extra == nonce {
                            (
                                v1,
                                Ok(
                                    Some(
                                        claim_assignment(
                                            candidate,
                                            source_net,
                                            whole_seconds(lease.expiration, now),
                                            lease.refresh_token,
                                        ),
                                    ),
                                ),
                            )
                        } else {
                            (v1, Err(AddressClaimError::Conflict))
                        },
                        LeaseKind::Tombstone { clear_time } => (
                            v1,
                            Err(AddressClaimError::Conflict),
                        ),
                    }
                },
                None => if v1.claims.len() == cap {
                    (v1, Err(AddressClaimError::Exhausted))
                } else {
                    (v1, Ok(None))
                },
            }
        }
    }
}

/// Whether a claim is granted that was not held before.
pub open spec fn claim_is_new<I: Interface>(
    v: RouterView<I>,
    source_net: u16,
    candidate: u8,
    nonce: u64,
    cap: nat,
    now: Nanos,
) -> bool {
    claim_checked(v, source_net, candidate, nonce, cap, now).1 == Ok::<
        Option<NodeClaimAssignment>,
        AddressClaimError,
    >(None)
}

/// Claiming the node_id `candidate` on bus `source_net`.
pub open spec fn claimed<I: Interface>(
    v: RouterView<I>,
    source_net: u16,
    candidate: u8,
    nonce: u64,
    cap: nat,
    now: Nanos,
    token: u64,
) -> (RouterView<I>, Result<NodeClaimAssignment, AddressClaimError>) {
    let (v1, checked) = claim_checked(v, source_net, candidate, nonce, cap, now);
    match checked {
        Err(e) => (v1, Err(e)),
        Ok(Some(existing)) => (v1, Ok(existing)),
        Ok(None) => (
            RouterView {
                claims: v1.claims.push(
                    LeaseEntry {
                        key: candidate,
                        scope: source_net,
                        extra: nonce,
                        kind: LeaseKind::fresh(now, INITIAL_LEASE_SECS, token),
                    },
                ),
                claimed_at: latest(v1.claimed_at, now),
                ..v1
            },
            Ok(claim_assignment(candidate, source_net, INITIAL_LEASE_SECS, token)),
        ),
    }
}

/// Refreshing a node claim.
pub open spec fn claim_refreshed<I: Interface>(
    v: RouterView<I>,
    source_net: u16,
    node_id: u8,
    req_token: u64,
    now: Nanos,
    token: u64,
) -> (RouterView<I>, Result<NodeClaimAssignment, AddressRefreshError>) {
    match lease_table::first_where(v.claims, lease_table::about_pair(node_id, source_net)) {
        None => (v, Err(AddressRefreshError::UnknownNodeId)),
        Some(k) => {
            let e = v.claims[k];
            let (kind, refreshed) = e.kind.refreshed(req_token, now, token, true);
            (
                RouterView {
                    claims: v.claims.update(k, LeaseEntry { kind, ..e }),
                    claimed_at: if refreshed matches Ok((_, replayed)) && !replayed {
                        latest(v.claimed_at, now)
                    } else {
                        v.claimed_at
                    },
                    ..v
                },
                match refreshed {
                    Ok((lease, replayed)) => Ok(
                        claim_assignment(
                            node_id,
                            source_net,
                            if replayed {
                                leases::remaining_seconds(lease.expiration, now)
                            } else {
                                MAX_LEASE_SECS
                            },
                            lease.refresh_token,
                        ),
                    ),
                    Err(RefreshDenied::Expired) => Err(AddressRefreshError::AlreadyExpired),
                    Err(RefreshDenied::BadToken) => Err(AddressRefreshError::BadRequest),
                    Err(RefreshDenied::TooSoon) => Err(AddressRefreshError::TooSoon),
                },
            )
        },
    }
}

/// Whether a node may send on bus `net_id` at `now`: the two point-to-point
/// roles always may, anyone else needs an active claim on that very bus.
pub open spec fn node_claimed<I: Interface>(
    v: RouterView<I>,
    net_id: u16,
    node_id: u8,
    now: Nanos,
) -> bool {
    ||| node_id == CENTRAL_NODE_ID
    ||| node_id == EDGE_NODE_ID
    ||| lease_table::first_where(v.claims, lease_table::about_pair(node_id, net_id)) matches Some(k)
        && v.claims[k].kind.active_at(now)
}

/// Whether `net_id` names a segment that is routed to, so that a frame
/// addressed there is passing through. A seed route counts for its whole grace
/// period; only that one route is brought up to date.
pub open spec fn transit<I: Interface>(v: RouterView<I>, net_id: u16, now: Nanos) -> (
    RouterView<I>,
    bool,
) {
    if net_id == 0 {
        (v, false)
    } else if has_net(v.slots, net_id) {
        (v, true)
    } else {
        (
            RouterView { seeds: lease_table::looked_at(v.seeds, net_id, now), ..v },
            lease_table::first_where(v.seeds, lease_table::about_key(net_id)) matches Some(k)
                && v.seeds[k].kind.aged(now) is Some,
        )
    }
}

} // verus!

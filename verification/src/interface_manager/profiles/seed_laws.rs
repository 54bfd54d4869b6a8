//! Who gets a network, who keeps it and who gives it back, told by the segments
//! and routes of a router.

use vstd::prelude::*;
use crate::interface_manager::lease_laws::{after, running, second, taken};
use crate::interface_manager::lease_laws as lease;
use crate::interface_manager::lease_table;
use crate::interface_manager::lease_table::LeaseEntry;
use crate::interface_manager::leases;
use crate::interface_manager::leases::{Lease, LeaseKind, Nanos};
use crate::interface_manager::profiles::claim_laws::{is_bus, taken_count};
use crate::interface_manager::profiles::router_laws as laws;
use crate::interface_manager::profiles::router_model as model;
use crate::interface_manager::profiles::router_model::{RouterView, SeedRoute, Slot};
use crate::interface_manager::{
    DelegatedRefreshPreparation, Interface, InterfaceState, SeedAssignmentError, SeedLease,
    SeedNetAssignment, SeedRefreshError,
};

verus! {

/// A network that something uses: a direct segment, a route whose time is not up,
/// or the link to the upstream.
pub open spec fn used<I: Interface>(v: RouterView<I>, net_id: u16, now: Nanos) -> bool {
    ||| exists|i: int| 0 <= i < v.slots.len() && (#[trigger] v.slots[i]).net_id == net_id
    ||| exists|k: int|
        0 <= k < v.seeds.len() && (#[trigger] v.seeds[k]).key == net_id && taken(
            v.seeds[k].kind,
            now,
        )
    ||| on_upstream(v, net_id)
}

/// The link to the upstream is on this network.
pub open spec fn on_upstream<I: Interface>(v: RouterView<I>, net_id: u16) -> bool {
    v.upstream matches Some(up) && up.port.state matches InterfaceState::Active {
        net_id: net,
        node_id,
    } && net == net_id
}

/// The route at `k` is about this network, for this segment.
pub open spec fn route_of<I: Interface>(
    v: RouterView<I>,
    source_net: u16,
    net_id: u16,
    k: int,
) -> bool {
    0 <= k < v.seeds.len() && v.seeds[k].key == net_id && v.seeds[k].scope == source_net
}

/// Everything but the routes is as before.
pub open spec fn only_routes_changed<I: Interface>(v: RouterView<I>, v2: RouterView<I>) -> bool {
    v2.slots == v.slots && v2.claims == v.claims && v2.upstream == v.upstream && v2.claimed_at
        == v.claimed_at
}

/// What a router knows to be in use at `now`, once its routes are brought up to
/// date, is what is in use.
pub proof fn use_is_known<I: Interface>(v: RouterView<I>, net_id: u16, now: Nanos)
    ensures
        model::net_in_use(model::with_seeds_aged(v, now), net_id) <==> used(v, net_id, now),
{
    let f = lease_table::entry_aged::<u16, SeedRoute>(now);
    let v1 = model::with_seeds_aged(v, now);
    lease_table::retained_members(v.seeds, f);
    if lease_table::holds_key(v1.seeds, net_id) {
        let i = choose|i: int| 0 <= i < v1.seeds.len() && (#[trigger] v1.seeds[i]).key == net_id;
        let k = choose|k: int|
            0 <= k < v.seeds.len() && f(#[trigger] v.seeds[k]) == Some(v1.seeds[i]);
        lease::time_takes_expired_leases(v.seeds[k].kind, now);
        assert(v.seeds[k].key == net_id && taken(v.seeds[k].kind, now));
    }
    if exists|k: int|
        0 <= k < v.seeds.len() && (#[trigger] v.seeds[k]).key == net_id && taken(
            v.seeds[k].kind,
            now,
        ) {
        let k = choose|k: int|
            0 <= k < v.seeds.len() && (#[trigger] v.seeds[k]).key == net_id && taken(
                v.seeds[k].kind,
                now,
            );
        lease::time_takes_expired_leases(v.seeds[k].kind, now);
        assert(f(v.seeds[k]) is Some);
        let i = choose|i: int|
            0 <= i < v1.seeds.len() && Some(#[trigger] v1.seeds[i]) == f(v.seeds[k]);
        assert(v1.seeds[i].key == net_id);
    }
}

/// A net_id is free to be handed out as long as one of `1..65535` is not in use.
pub proof fn free_nets_are_found<I: Interface>(v: RouterView<I>, now: Nanos)
    ensures
        match model::lowest_free(model::with_seeds_aged(v, now)) {
            Some(net_id) => {
                &&& 1 <= net_id < 65535
                &&& !used(v, net_id, now)
                &&& forall|other: u16| 1 <= other < net_id ==> #[trigger] used(v, other, now)
            },
            None => forall|other: u16| 1 <= other < 65535 ==> #[trigger] used(v, other, now),
        },
{
    let v1 = model::with_seeds_aged(v, now);
    assert forall|x: u16| true implies model::net_in_use(v1, x) == #[trigger] used(
        v,
        x,
        now,
    ) by {
        use_is_known(v, x, now);
    }
    match model::lowest_free(v1) {
        Some(net_id) => {
            laws::lowest_free_exists(v1);
            assert(model::net_in_use(v1, net_id) == used(v, net_id, now));
            assert forall|other: u16| 1 <= other < net_id implies #[trigger] used(v, other, now) by {
                assert(model::net_in_use(v1, other));
            }
        },
        None => {
            assert forall|other: u16| 1 <= other < 65535 implies #[trigger] used(v, other, now) by {
                if !used(v, other, now) {
                    assert(!model::net_in_use(v1, other));
                    lemma_lowest(v1, other);
                }
            }
        },
    }
}

proof fn lemma_lowest<I: Interface>(v: RouterView<I>, net_id: u16)
    requires
        1 <= net_id < 65535,
        !model::net_in_use(v, net_id),
    ensures
        exists|k: u16| model::is_lowest_free(v, k),
    decreases net_id,
{
    if forall|other: u16| 1 <= other < net_id ==> #[trigger] model::net_in_use(v, other) {
        assert(model::is_lowest_free(v, net_id));
    } else {
        let other = choose|other: u16| 1 <= other < net_id && !#[trigger] model::net_in_use(v, other);
        lemma_lowest(v, other);
    }
}

// ---------------------------------------------------------------------------
// Leasing
// ---------------------------------------------------------------------------
/// A root router leases a network to every device on one of its segments that
/// asks, as long as it has room for one more route and a net_id that is not in
/// use. It is the lowest such, and it is theirs for half a minute, reached over
/// the segment that they asked from.
pub proof fn networks_are_leased<I: Interface>(
    v: RouterView<I>,
    source_net: u16,
    cap: nat,
    now: Nanos,
    token: u64,
    n: nat,
    c: nat,
)
    requires
        model::router_wf(v, n, cap, c),
    ensures
        ({
            let (v2, r) = model::seed_assigned(v, source_net, cap, now, token);
            &&& only_routes_changed(v, v2)
            &&& if v.upstream is Some {
                v2 == v && r == Err::<SeedNetAssignment, _>(SeedAssignmentError::ProfileCantSeed)
            } else if !is_bus(v, source_net) {
                r == Err::<SeedNetAssignment, _>(SeedAssignmentError::UnknownSource)
            } else if taken_count(v.seeds, now) >= cap || forall|other: u16|
                1 <= other < 65535 ==> #[trigger] used(v, other, now) {
                r == Err::<SeedNetAssignment, _>(SeedAssignmentError::NetIdsExhausted)
            } else {
                &&& r matches Ok(a) && {
                    &&& 1 <= a.net_id < 65535
                    &&& !used(v, a.net_id, now)
                    &&& forall|other: u16|
                        1 <= other < a.net_id ==> #[trigger] used(v, other, now)
                    &&& a.expires_seconds == 30
                    &&& a.max_refresh_seconds == 120
                    &&& a.min_refresh_seconds == 62
                    &&& a.refresh_token == leases::token_bytes(token)
                    &&& v2.seeds.last().key == a.net_id
                }
                &&& v2.seeds.len() == taken_count(v.seeds, now) + 1
                &&& v2.seeds.drop_last() == lease_table::table_aged(v.seeds, now)
                &&& v2.seeds.last().scope == source_net
                &&& v2.seeds.last().extra.parent is None
                &&& exists|i: int|
                    0 <= i < v.slots.len() && (#[trigger] v.slots[i]).net_id == source_net
                        && v.slots[i].ident == v2.seeds.last().extra.via_ident
                &&& v2.seeds.last().kind matches LeaseKind::Active(l) && l.refresh_token == token
                    && l.previous_refresh_token is None && l.expiration == after(now, 30)
            }
        }),
{
    let (v2, r) = model::seed_assigned(v, source_net, cap, now, token);
    lease::tables_lose_what_is_free(v.seeds, now);
    lease_table::retained_members(v.seeds, lease_table::entry_aged::<u16, SeedRoute>(now));
    free_nets_are_found(v, now);
    lease::later_is_after(now, 30);
    lease_table::first_where_none(v.slots, |x: Slot<I>| x.net_id == source_net);
    if r is Ok {
        assert(v2.seeds.drop_last() =~= lease_table::table_aged(v.seeds, now));
        let pos = model::slot_of_net(v.slots, source_net)->0;
        assert(v.slots[pos].net_id == source_net);
    }
}

/// The holder of a network keeps it by refreshing it with its current token in its
/// last minute, however often: it then runs for two minutes more, by the new token.
/// Sooner is too soon. The previous token gets the lease as it stands. Any other
/// token is refused, and an expired lease is not refreshed. No other route is
/// touched.
pub proof fn holders_keep_their_networks<I: Interface>(
    v: RouterView<I>,
    source_net: u16,
    net_id: u16,
    req_token: u64,
    now: Nanos,
    token: u64,
    k: int,
    n: nat,
    s: nat,
    c: nat,
)
    requires
        model::router_wf(v, n, s, c),
        route_of(v, source_net, net_id, k),
    ensures
        ({
            let (v2, r) = model::seed_refreshed(v, source_net, net_id, req_token, now, token);
            let e = v.seeds[k];
            let e2 = v2.seeds[k];
            &&& only_routes_changed(v, v2)
            &&& v2.seeds.len() == v.seeds.len()
            &&& forall|j: int|
                0 <= j < v.seeds.len() && j != k ==> #[trigger] v2.seeds[j] == v.seeds[j]
            &&& e2 == (LeaseEntry { kind: e2.kind, ..e })
            &&& r matches Ok(a) ==> {
                &&& a.net_id == net_id
                &&& a.max_refresh_seconds == 120
                &&& a.min_refresh_seconds == 62
            }
            &&& match e.kind {
                LeaseKind::Tombstone { clear_time } => {
                    &&& e2 == e
                    &&& r == Err::<SeedNetAssignment, _>(SeedRefreshError::AlreadyExpired)
                },
                LeaseKind::Active(l) => if req_token != l.refresh_token
                    && l.previous_refresh_token != Some(req_token) {
                    &&& e2 == e
                    &&& r == Err::<SeedNetAssignment, _>(SeedRefreshError::BadRequest)
                } else if l.expiration <= now {
                    &&& !running(e2.kind, now)
                    &&& r == Err::<SeedNetAssignment, _>(SeedRefreshError::AlreadyExpired)
                } else if req_token != l.refresh_token {
                    &&& e2 == e
                    &&& r matches Ok(a) && a.refresh_token == leases::token_bytes(l.refresh_token)
                        && a.expires_seconds == leases::remaining_seconds(l.expiration, now)
                } else if l.expiration - now >= 62 * second() {
                    &&& e2 == e
                    &&& r == Err::<SeedNetAssignment, _>(SeedRefreshError::TooSoon)
                } else {
                    &&& r matches Ok(a) && a.refresh_token == leases::token_bytes(token)
                        && a.expires_seconds == 120
                    &&& e2.kind matches LeaseKind::Active(l2) && l2.refresh_token == token
                        && l2.previous_refresh_token == Some(l.refresh_token) && l2.expiration
                        == after(now, 120)
                },
            }
        }),
{
    lemma_route_found(v, source_net, net_id, k, n, s, c);
    lease::later_is_after(now, 120);
}

proof fn lemma_route_found<I: Interface>(
    v: RouterView<I>,
    source_net: u16,
    net_id: u16,
    k: int,
    n: nat,
    s: nat,
    c: nat,
)
    requires
        model::router_wf(v, n, s, c),
        route_of(v, source_net, net_id, k),
    ensures
        lease_table::first_where(v.seeds, lease_table::about_pair(net_id, source_net)) == Some(k),
        forall|j: int| #[trigger] route_of(v, source_net, net_id, j) ==> j == k,
{
    let p = lease_table::about_pair::<u16, SeedRoute>(net_id, source_net);
    assert forall|j: int| 0 <= j < k implies !p(#[trigger] v.seeds[j]) by {
        assert(v.seeds[j].key != v.seeds[k].key);
    }
    lease_table::first_where_is(v.seeds, p, k);
    assert forall|j: int| #[trigger] route_of(v, source_net, net_id, j) implies j == k by {
        if j < k {
            assert(v.seeds[j].key != v.seeds[k].key);
        } else if k < j {
            assert(v.seeds[k].key != v.seeds[j].key);
        }
    }
}

/// Nobody can refresh, commit or give back a network that the segment has no
/// route for.
pub proof fn unknown_networks_are_refused<I: Interface>(
    v: RouterView<I>,
    source_net: u16,
    net_id: u16,
    req_token: u64,
    parent: SeedLease,
    now: Nanos,
    token: u64,
)
    requires
        forall|k: int| !#[trigger] route_of(v, source_net, net_id, k),
        parent.net_id == net_id,
        parent.min_refresh_seconds > 5,
    ensures
        model::seed_refreshed(v, source_net, net_id, req_token, now, token) == (
            v,
            Err::<SeedNetAssignment, _>(SeedRefreshError::UnknownNetId),
        ),
        model::refresh_committed(v, source_net, req_token, parent, now, token) == (
            v,
            Err::<SeedNetAssignment, _>(SeedRefreshError::UnknownNetId),
        ),
        model::released(v, source_net, net_id, req_token, now) == (
            v,
            Err::<(), _>(SeedRefreshError::UnknownNetId),
        ),
{
    let p = lease_table::about_pair::<u16, SeedRoute>(net_id, source_net);
    lease_table::first_where_none(v.seeds, p);
    if let Some(i) = lease_table::first_where(v.seeds, p) {
        assert(route_of(v, source_net, net_id, i));
    }
}

/// The holder of a network, and nobody else, can give it back, with its current
/// token and before it expires. The route is then gone, and every other one stays.
pub proof fn holders_give_networks_back<I: Interface>(
    v: RouterView<I>,
    source_net: u16,
    net_id: u16,
    req_token: u64,
    now: Nanos,
    k: int,
    n: nat,
    s: nat,
    c: nat,
)
    requires
        model::router_wf(v, n, s, c),
        route_of(v, source_net, net_id, k),
    ensures
        ({
            let (v2, r) = model::released(v, source_net, net_id, req_token, now);
            let e = v.seeds[k];
            &&& only_routes_changed(v, v2)
            &&& if e.kind matches LeaseKind::Active(l) && now < l.expiration && l.refresh_token
                == req_token {
                &&& r is Ok
                &&& v2.seeds == v.seeds.remove(k)
            } else {
                &&& r == Err::<(), _>(
                    if e.kind matches LeaseKind::Active(l) && l.refresh_token != req_token {
                        SeedRefreshError::BadRequest
                    } else {
                        SeedRefreshError::AlreadyExpired
                    },
                )
                &&& v2.seeds.len() == v.seeds.len()
                &&& v2.seeds[k] == (LeaseEntry { kind: v2.seeds[k].kind, ..e })
                &&& taken(v2.seeds[k].kind, now) == taken(e.kind, now)
                &&& forall|j: int|
                    0 <= j < v.seeds.len() && j != k ==> #[trigger] v2.seeds[j] == v.seeds[j]
            }
        }),
{
    lemma_route_found(v, source_net, net_id, k, n, s, c);
    let f = lease_table::other_pair::<u16, SeedRoute>(net_id, source_net);
    if let LeaseKind::Active(l) = v.seeds[k].kind {
        lease::later_is_after(l.expiration, 30);
        lemma_all_but_one(v.seeds, f, k);
    }
}

/// Dropping the one item that is not kept.
proof fn lemma_all_but_one<T>(s: Seq<T>, f: spec_fn(T) -> Option<T>, k: int)
    requires
        0 <= k < s.len(),
        f(s[k]) is None,
        forall|j: int| 0 <= j < s.len() && j != k ==> f(#[trigger] s[j]) == Some(s[j]),
    ensures
        lease_table::retained(s, f) == s.remove(k),
    decreases s.len(),
{
    let t = s.drop_last();
    if k < s.len() - 1 {
        assert forall|j: int| 0 <= j < t.len() && j != k implies f(#[trigger] t[j]) == Some(
            t[j],
        ) by {
            assert(s[j] == t[j]);
        }
        lemma_all_but_one(t, f, k);
        assert(f(s[s.len() - 1]) == Some(s[s.len() - 1]));
        assert(t.remove(k).push(s.last()) =~= s.remove(k));
    } else {
        lemma_all_kept(t, f);
        assert(s.remove(k) =~= t);
    }
}

proof fn lemma_all_kept<T>(s: Seq<T>, f: spec_fn(T) -> Option<T>)
    requires
        forall|j: int| 0 <= j < s.len() ==> f(#[trigger] s[j]) == Some(s[j]),
    ensures
        lease_table::retained(s, f) == s,
    decreases s.len(),
{
    if s.len() > 0 {
        let t = s.drop_last();
        assert forall|j: int| 0 <= j < t.len() implies f(#[trigger] t[j]) == Some(t[j]) by {
            assert(s[j] == t[j]);
        }
        lemma_all_kept(t, f);
        assert(f(s[s.len() - 1]) == Some(s[s.len() - 1]));
        assert(t.push(s.last()) =~= s);
    }
}

/// Whether a net is routed to: a segment is, and so is every leased network until
/// its key is free. Zero stands for no network.
pub proof fn taken_networks_are_routed_to<I: Interface>(
    v: RouterView<I>,
    net_id: u16,
    now: Nanos,
    n: nat,
    s: nat,
    c: nat,
)
    requires
        model::router_wf(v, n, s, c),
    ensures
        only_routes_changed(v, model::transit(v, net_id, now).0),
        model::transit(v, net_id, now).1 <==> net_id != 0 && {
            ||| is_bus(v, net_id)
            ||| exists|k: int|
                0 <= k < v.seeds.len() && (#[trigger] v.seeds[k]).key == net_id && taken(
                    v.seeds[k].kind,
                    now,
                )
        },
{
    let p = lease_table::about_key::<u16, SeedRoute>(net_id);
    lease_table::first_where_none(v.seeds, p);
    if let Some(i) = lease_table::first_where(v.seeds, p) {
        assert(v.seeds[i].key == net_id);
        lease::time_takes_expired_leases(v.seeds[i].kind, now);
        assert forall|k: int| 0 <= k < v.seeds.len() && (#[trigger] v.seeds[k]).key == net_id implies k
            == i by {
            if k < i {
                assert(v.seeds[k].key != v.seeds[i].key);
            } else if i < k {
                assert(v.seeds[i].key != v.seeds[k].key);
            }
        }
    } else {
        assert forall|k: int| 0 <= k < v.seeds.len() implies (#[trigger] v.seeds[k]).key
            != net_id by {
            assert(!p(v.seeds[k]));
        }
    }
}

// ---------------------------------------------------------------------------
// Passing leases on
// ---------------------------------------------------------------------------
/// Whether a route is not for this network.
pub open spec fn not_for(net_id: u16) -> spec_fn(LeaseEntry<u16, SeedRoute>) -> bool {
    |e: LeaseEntry<u16, SeedRoute>| e.key != net_id
}

/// How many routes are taken that are not for this network.
pub open spec fn others_taken<I: Interface>(v: RouterView<I>, net_id: u16, now: Nanos) -> nat {
    lease_table::table_aged(v.seeds, now).filter(not_for(net_id)).len()
}

/// Asking the upstream for a network makes sense for every device on a segment of
/// this router, as long as there is room for one more route.
pub proof fn delegation_is_possible_with_room<I: Interface>(
    v: RouterView<I>,
    source_net: u16,
    cap: nat,
    now: Nanos,
    n: nat,
    c: nat,
)
    requires
        model::router_wf(v, n, cap, c),
    ensures
        ({
            let (v2, r) = model::delegation_possible(v, source_net, cap, now);
            &&& only_routes_changed(v, v2)
            &&& v2.seeds == lease_table::table_aged(v.seeds, now)
            &&& r is Ok <==> is_bus(v, source_net) && taken_count(v.seeds, now) < cap
            &&& !is_bus(v, source_net) ==> r == Err::<(), _>(SeedAssignmentError::UnknownSource)
            &&& is_bus(v, source_net) && taken_count(v.seeds, now) >= cap ==> r == Err::<(), _>(
                SeedAssignmentError::NetIdsExhausted,
            )
        }),
{
    lease::tables_lose_what_is_free(v.seeds, now);
    lease_table::retained_members(v.seeds, lease_table::entry_aged::<u16, SeedRoute>(now));
}

/// A bridge passes on every lease that its upstream granted, to a device on one of
/// its segments, for as long as the lease lasts and with a refresh window that is
/// five seconds smaller. It refuses one for a network that it has itself, one
/// whose window is used up, and one that it has no room for. An older route for
/// the same network gives way.
pub proof fn leases_are_passed_on<I: Interface>(
    v: RouterView<I>,
    source_net: u16,
    parent: SeedLease,
    cap: nat,
    now: Nanos,
    token: u64,
    n: nat,
    c: nat,
)
    requires
        model::router_wf(v, n, cap, c),
    ensures
        ({
            let (v2, r) = model::delegation_registered(v, source_net, parent, cap, now, token);
            let own = on_upstream(v, parent.net_id) || exists|i: int|
                0 <= i < v.slots.len() && (#[trigger] v.slots[i]).net_id == parent.net_id;
            &&& only_routes_changed(v, v2)
            &&& if !is_bus(v, source_net) {
                r == Err::<SeedNetAssignment, _>(SeedAssignmentError::UnknownSource)
            } else if own {
                r == Err::<SeedNetAssignment, _>(SeedAssignmentError::NetIdCollision)
            } else if parent.min_refresh_seconds <= 5 {
                r == Err::<SeedNetAssignment, _>(SeedAssignmentError::DelegationDepthExceeded)
            } else if others_taken(v, parent.net_id, now) >= cap {
                r == Err::<SeedNetAssignment, _>(SeedAssignmentError::NetIdsExhausted)
            } else {
                &&& r matches Ok(a) && {
                    &&& a.net_id == parent.net_id
                    &&& a.expires_seconds == parent.expires_seconds
                    &&& a.max_refresh_seconds == parent.max_refresh_seconds
                    &&& a.min_refresh_seconds + 5 == parent.min_refresh_seconds
                    &&& a.refresh_token == leases::token_bytes(token)
                }
                &&& v2.seeds.drop_last() == lease_table::table_aged(v.seeds, now).filter(
                    not_for(parent.net_id),
                )
                &&& v2.seeds.len() == others_taken(v, parent.net_id, now) + 1
                &&& v2.seeds.last().key == parent.net_id
                &&& v2.seeds.last().scope == source_net
                &&& v2.seeds.last().extra.parent == Some(parent)
                &&& exists|i: int|
                    0 <= i < v.slots.len() && (#[trigger] v.slots[i]).net_id == source_net
                        && v.slots[i].ident == v2.seeds.last().extra.via_ident
                &&& v2.seeds.last().kind matches LeaseKind::Active(l) && l.refresh_token == token
                    && l.previous_refresh_token is None && l.expiration == after(
                    now,
                    parent.expires_seconds as int,
                )
            }
        }),
{
    let (v2, r) = model::delegation_registered(v, source_net, parent, cap, now, token);
    let aged = lease_table::table_aged(v.seeds, now);
    let f = lease_table::other_key::<u16, SeedRoute>(parent.net_id);
    let p = not_for(parent.net_id);
    lemma_filtered(aged, f, p);
    lease_table::retained_members(v.seeds, lease_table::entry_aged::<u16, SeedRoute>(now));
    lease_table::retained_members(aged, f);
    lease::later_is_after(now, parent.expires_seconds);
    lease_table::first_where_none(v.slots, |x: Slot<I>| x.net_id == source_net);
    if r is Ok {
        assert(v2.seeds.drop_last() =~= aged.filter(p));
        let pos = model::slot_of_net(v.slots, source_net)->0;
        assert(v.slots[pos].net_id == source_net);
    }
}

/// Keeping items as they are is filtering them.
proof fn lemma_filtered<T>(s: Seq<T>, f: spec_fn(T) -> Option<T>, p: spec_fn(T) -> bool)
    requires
        forall|e: T| #[trigger] f(e) == (if p(e) {
            Some(e)
        } else {
            None
        }),
    ensures
        lease_table::retained(s, f) == s.filter(p),
    decreases s.len(),
{
    reveal(Seq::filter);
    if s.len() > 0 {
        lemma_filtered(s.drop_last(), f, p);
    }
}

/// What a lease that was passed on is to its holder when it was refreshed at the
/// upstream: the current token is exchanged for a new one, and the route then lasts
/// as long as the new lease. Any other token is refused, and so is a route that has
/// expired or that was not passed on.
pub proof fn upstream_refreshes_are_committed<I: Interface>(
    v: RouterView<I>,
    source_net: u16,
    req_token: u64,
    parent: SeedLease,
    now: Nanos,
    token: u64,
    k: int,
    n: nat,
    s: nat,
    c: nat,
)
    requires
        model::router_wf(v, n, s, c),
        route_of(v, source_net, parent.net_id, k),
    ensures
        ({
            let (v2, r) = model::refresh_committed(v, source_net, req_token, parent, now, token);
            let e = v.seeds[k];
            let e2 = v2.seeds[k];
            &&& only_routes_changed(v, v2)
            &&& v2.seeds.len() == v.seeds.len()
            &&& forall|j: int|
                0 <= j < v.seeds.len() && j != k ==> #[trigger] v2.seeds[j] == v.seeds[j]
            &&& if parent.min_refresh_seconds <= 5 {
                e2 == e && r == Err::<SeedNetAssignment, _>(
                    SeedRefreshError::DelegationDepthExceeded,
                )
            } else if e.kind matches LeaseKind::Active(l) && l.refresh_token != req_token {
                e2 == e && r == Err::<SeedNetAssignment, _>(SeedRefreshError::BadRequest)
            } else if !running(e.kind, now) {
                &&& !running(e2.kind, now)
                &&& e2 == (LeaseEntry { kind: e2.kind, ..e })
                &&& r == Err::<SeedNetAssignment, _>(SeedRefreshError::AlreadyExpired)
            } else if e.extra.parent is None {
                e2 == e && r == Err::<SeedNetAssignment, _>(SeedRefreshError::NotAssigned)
            } else {
                &&& r matches Ok(a) && {
                    &&& a.net_id == parent.net_id
                    &&& a.expires_seconds == parent.expires_seconds
                    &&& a.max_refresh_seconds == parent.max_refresh_seconds
                    &&& a.min_refresh_seconds + 5 == parent.min_refresh_seconds
                    &&& a.refresh_token == leases::token_bytes(token)
                }
                &&& e2.key == e.key && e2.scope == e.scope
                &&& e2.extra.via_ident == e.extra.via_ident
                &&& e2.extra.parent == Some(parent)
                &&& e2.kind matches LeaseKind::Active(l2) && l2.refresh_token == token
                    && l2.previous_refresh_token == Some(req_token) && l2.expiration == after(
                    now,
                    parent.expires_seconds as int,
                )
            }
        }),
{
    lemma_route_found(v, source_net, parent.net_id, k, n, s, c);
    lease::later_is_after(now, parent.expires_seconds);
}

/// Before the upstream is asked to refresh or to take back a network: a request is
/// only passed on for a route that the segment holds and that has not expired, by
/// its current token, and then with the lease that the upstream granted. An older
/// token replays the last response, but gives nothing back.
pub proof fn upstream_requests_are_checked<I: Interface>(
    v: RouterView<I>,
    source_net: u16,
    net_id: u16,
    req_token: u64,
    now: Nanos,
    k: int,
    n: nat,
    s: nat,
    c: nat,
)
    requires
        model::router_wf(v, n, s, c),
        0 <= k < v.seeds.len(),
        v.seeds[k].key == net_id,
    ensures
        ({
            let (v2, refresh) = model::refresh_prepared(v, source_net, net_id, req_token, now);
            let (v3, release) = model::release_prepared(v, source_net, net_id, req_token, now);
            let e = v.seeds[k];
            &&& only_routes_changed(v, v2) && only_routes_changed(v, v3)
            &&& v2.seeds == lease_table::table_aged(v.seeds, now)
            &&& v3.seeds == lease_table::table_aged(v.seeds, now)
            &&& if !taken(e.kind, now) {
                &&& refresh == Err::<DelegatedRefreshPreparation, _>(SeedRefreshError::UnknownNetId)
                &&& release == Err::<SeedLease, _>(SeedRefreshError::UnknownNetId)
            } else if e.scope != source_net {
                &&& refresh == Err::<DelegatedRefreshPreparation, _>(SeedRefreshError::BadRequest)
                &&& release == Err::<SeedLease, _>(SeedRefreshError::UnknownNetId)
            } else if !running(e.kind, now) {
                &&& refresh == Err::<DelegatedRefreshPreparation, _>(
                    SeedRefreshError::AlreadyExpired,
                )
                &&& release == Err::<SeedLease, _>(SeedRefreshError::AlreadyExpired)
            } else {
                &&& e.kind matches LeaseKind::Active(l) && {
                    &&& release == (if req_token != l.refresh_token {
                        Err(SeedRefreshError::BadRequest)
                    } else {
                        match e.extra.parent {
                            Some(parent) => Ok(parent),
                            None => Err(SeedRefreshError::NotAssigned),
                        }
                    })
                    &&& if req_token == l.refresh_token {
                        refresh == (match e.extra.parent {
                            Some(parent) => Ok(DelegatedRefreshPreparation::Forward(parent)),
                            None => Err(SeedRefreshError::NotAssigned),
                        })
                    } else if l.previous_refresh_token == Some(req_token) {
                        match e.extra.parent {
                            Some(parent) => refresh matches Ok(
                                DelegatedRefreshPreparation::Replay(a),
                            ) && {
                                &&& a.net_id == parent.net_id
                                &&& a.max_refresh_seconds == parent.max_refresh_seconds
                                &&& a.min_refresh_seconds + 5 == parent.min_refresh_seconds
                                &&& a.refresh_token == leases::token_bytes(l.refresh_token)
                                &&& a.expires_seconds == leases::remaining_seconds(
                                    l.expiration,
                                    now,
                                )
                            },
                            None => refresh == Err::<DelegatedRefreshPreparation, _>(
                                SeedRefreshError::NotAssigned,
                            ),
                        }
                    } else {
                        refresh == Err::<DelegatedRefreshPreparation, _>(
                            SeedRefreshError::BadRequest,
                        )
                    }
                }
            }
        }),
{
    let f = lease_table::entry_aged::<u16, SeedRoute>(now);
    let e = v.seeds[k];
    let v1 = model::with_seeds_aged(v, now);
    let key = lease_table::about_key::<u16, SeedRoute>(net_id);
    let pair = lease_table::about_pair::<u16, SeedRoute>(net_id, source_net);
    lease::time_takes_expired_leases(e.kind, now);
    assert(model::seed_wf(v.slots, e));
    assert forall|j: int| 0 <= j < v.seeds.len() && (#[trigger] v.seeds[j]).key == net_id implies j
        == k by {
        if j < k {
            assert(v.seeds[j].key != v.seeds[k].key);
        } else if k < j {
            assert(v.seeds[k].key != v.seeds[j].key);
        }
    }
    assert(f(e) is Some <==> taken(e.kind, now));
    lease_table::lookup_after_key(v.seeds, f, net_id);
    assert(lease_table::unique_pairs(v.seeds)) by {
        assert forall|i: int, j: int| 0 <= i < j < v.seeds.len() implies !(#[trigger] v.seeds[i].key
            == #[trigger] v.seeds[j].key && v.seeds[i].scope == v.seeds[j].scope) by {
            assert(v.seeds[i].key != v.seeds[j].key);
        }
    }
    lease_table::lookup_after_pair(v.seeds, f, net_id, source_net);
    if taken(e.kind, now) {
        assert(lease_table::finds(v1.seeds, key, f(e)->0));
        let i = lease_table::first_where(v1.seeds, key)->0;
        lease_table::first_where_none(v1.seeds, key);
        assert(v1.seeds.update(i, v1.seeds[i]) =~= v1.seeds);
        if e.scope == source_net {
            assert(lease_table::finds(v1.seeds, pair, f(e)->0));
            let i2 = lease_table::first_where(v1.seeds, pair)->0;
            assert(v1.seeds.update(i2, v1.seeds[i2]) =~= v1.seeds);
        }
    }
}

/// No request is passed on to the upstream for a network that is not taken.
pub proof fn free_networks_are_not_asked_for<I: Interface>(
    v: RouterView<I>,
    source_net: u16,
    net_id: u16,
    req_token: u64,
    now: Nanos,
)
    requires
        forall|k: int|
            0 <= k < v.seeds.len() && (#[trigger] v.seeds[k]).key == net_id ==> !taken(
                v.seeds[k].kind,
                now,
            ),
    ensures
        model::refresh_prepared(v, source_net, net_id, req_token, now).1 == Err::<
            DelegatedRefreshPreparation,
            _,
        >(SeedRefreshError::UnknownNetId),
        model::release_prepared(v, source_net, net_id, req_token, now).1 == Err::<SeedLease, _>(
            SeedRefreshError::UnknownNetId,
        ),
{
    let f = lease_table::entry_aged::<u16, SeedRoute>(now);
    let v1 = model::with_seeds_aged(v, now);
    let key = lease_table::about_key::<u16, SeedRoute>(net_id);
    let pair = lease_table::about_pair::<u16, SeedRoute>(net_id, source_net);
    use_is_known(v, net_id, now);
    lease_table::first_where_none(v1.seeds, key);
    lease_table::first_where_none(v1.seeds, pair);
    lease_table::retained_members(v.seeds, f);
    assert forall|i: int| 0 <= i < v1.seeds.len() implies (#[trigger] v1.seeds[i]).key != net_id by {
        let k = choose|k: int|
            0 <= k < v.seeds.len() && f(#[trigger] v.seeds[k]) == Some(v1.seeds[i]);
        lease::time_takes_expired_leases(v.seeds[k].kind, now);
    }
}

/// Asking for a network on a segment brings the routes up to date, whether or not one is
/// leased. A bridge does not even look.
pub proof fn asking_brings_routes_up_to_date<I: Interface>(
    v: RouterView<I>,
    source_net: u16,
    cap: nat,
    now: Nanos,
    token: u64,
)
    ensures
        ({
            let (v2, r) = model::seed_assigned(v, source_net, cap, now, token);
            let current = lease_table::table_aged(v.seeds, now);
            &&& v.upstream is Some || source_net == 0 ==> v2 == v
            &&& v.upstream is None && source_net != 0 && r is Err ==> v2 == (RouterView {
                seeds: current,
                ..v
            })
            &&& r is Ok ==> v2.seeds.drop_last() == current
        }),
        model::delegation_possible(v, source_net, cap, now).0 == (RouterView {
            seeds: lease_table::table_aged(v.seeds, now),
            ..v
        }),
{
    let (v2, r) = model::seed_assigned(v, source_net, cap, now, token);
    if r is Ok {
        assert(v2.seeds.drop_last() =~= lease_table::table_aged(v.seeds, now));
    }
}

} // verus!

//! Where a router sends frames, told by its interfaces and routes.

use vstd::prelude::*;
use crate::address::Address;
use crate::interface_manager::edge_port::EdgePort;
use crate::interface_manager::lease_laws::{running, taken};
use crate::interface_manager::lease_laws as lease;
use crate::interface_manager::lease_table;
use crate::interface_manager::leases::Nanos;
use crate::interface_manager::profiles::router_model as model;
use crate::interface_manager::profiles::router_model::{RouterView, SeedRoute, Slot};
use crate::interface_manager::{Interface, InterfaceSendError, Payload};
use crate::Header;

verus! {

/// No interface got anything.
pub open spec fn nothing_sent<I: Interface>(before: RouterView<I>, after: RouterView<I>) -> bool {
    after.slots == before.slots && after.upstream == before.upstream
}

/// The frame was handed to the port of the downstream interface at `i`, and to
/// no other.
pub open spec fn sent_down<I: Interface>(
    before: RouterView<I>,
    after: RouterView<I>,
    i: int,
    hdr: Header,
    what: Payload,
    r: Result<(), InterfaceSendError>,
) -> bool {
    &&& EdgePort::sent(before.slots[i].port, after.slots[i].port, hdr, what, r)
    &&& after.slots.len() == before.slots.len()
    &&& forall|j: int|
        0 <= j < before.slots.len() && j != i ==> #[trigger] after.slots[j] == before.slots[j]
    &&& after.slots[i].ident == before.slots[i].ident
    &&& after.slots[i].net_id == before.slots[i].net_id
    &&& after.slots[i].closer == before.slots[i].closer
    &&& after.upstream == before.upstream
}

/// The frame was handed to the port of the upstream, and to no other.
pub open spec fn sent_up<I: Interface>(
    before: RouterView<I>,
    after: RouterView<I>,
    hdr: Header,
    what: Payload,
    r: Result<(), InterfaceSendError>,
) -> bool {
    &&& before.upstream matches Some(up) && after.upstream matches Some(up2) && {
        &&& EdgePort::sent(up.port, up2.port, hdr, what, r)
        &&& up2.closer == up.closer
    }
    &&& after.slots == before.slots
}

/// A frame for one destination, with hops left, and with a key if it is for any
/// socket there.
pub open spec fn for_one(hdr: Header, what: Payload) -> bool {
    &&& hdr.ttl > 0
    &&& hdr.dst.port_id == 255 ==> what is Error
    &&& hdr.dst.port_id == 0 ==> hdr.any_all is Some
}

/// No downstream interface is on this network.
pub open spec fn no_segment<I: Interface>(v: RouterView<I>, net_id: u16) -> bool {
    net_id != 0 ==> forall|i: int|
        0 <= i < v.slots.len() ==> (#[trigger] v.slots[i]).net_id != net_id
}

/// The header one hop further.
pub open spec fn one_hop(hdr: Header) -> Header {
    Header { ttl: (hdr.ttl - 1) as u8, ..hdr }
}

/// A frame for a direct segment goes out over the interface of that segment,
/// wherever else it came from. On the router itself it stays, and to the segment
/// that it came from it does not go back.
pub proof fn frames_reach_their_segment<I: Interface>(
    before: RouterView<I>,
    after: RouterView<I>,
    hdr: Header,
    what: Payload,
    source: Option<u8>,
    now: Nanos,
    r: Result<(), InterfaceSendError>,
    i: int,
    n: nat,
    s: nat,
    c: nat,
)
    requires
        model::router_wf(before, n, s, c),
        model::sent(before, after, hdr, what, source, now, r),
        for_one(hdr, what),
        0 <= i < before.slots.len(),
        before.slots[i].net_id == hdr.dst.network_id,
        hdr.dst.network_id != 0,
    ensures
        if hdr.dst.node_id == 1 {
            nothing_sent(before, after) && r == Err::<(), _>(InterfaceSendError::DestinationLocal)
        } else if source == Some(before.slots[i].ident) {
            nothing_sent(before, after) && r == Err::<(), _>(InterfaceSendError::RoutingLoop)
        } else {
            sent_down(before, after, i, one_hop(hdr), what, r)
        },
{
    let p = |x: Slot<I>| x.net_id == hdr.dst.network_id;
    assert forall|j: int| 0 <= j < i implies !p(#[trigger] before.slots[j]) by {
        assert(before.slots[j].net_id == before.slots[i].net_id ==> before.slots[j].net_id == 0);
    }
    lease_table::first_where_is(before.slots, p, i);
}

/// A frame for a network that is leased out goes to the interface over which its
/// holder is reached, wherever else it came from.
pub proof fn frames_reach_leased_networks<I: Interface>(
    before: RouterView<I>,
    after: RouterView<I>,
    hdr: Header,
    what: Payload,
    source: Option<u8>,
    now: Nanos,
    r: Result<(), InterfaceSendError>,
    k: int,
    i: int,
    n: nat,
    s: nat,
    c: nat,
)
    requires
        model::router_wf(before, n, s, c),
        model::sent(before, after, hdr, what, source, now, r),
        for_one(hdr, what),
        no_segment(before, hdr.dst.network_id),
        0 <= k < before.seeds.len(),
        before.seeds[k].key == hdr.dst.network_id,
        running(before.seeds[k].kind, now),
        0 <= i < before.slots.len(),
        before.slots[i].ident == before.seeds[k].extra.via_ident,
    ensures
        if source == Some(before.slots[i].ident) {
            nothing_sent(before, after) && r == Err::<(), _>(InterfaceSendError::RoutingLoop)
        } else {
            sent_down(before, after, i, one_hop(hdr), what, r)
        },
{
    let net = hdr.dst.network_id;
    let e = before.seeds[k];
    lease_table::first_where_none(before.slots, |x: Slot<I>| x.net_id == net);
    lease::time_takes_expired_leases(e.kind, now);
    lease_table::lookup_after_key(before.seeds, lease_table::entry_aged(now), net);
    assert(lease_table::entry_aged::<u16, SeedRoute>(now)(e) == Some(e));
    let v1 = model::with_seeds_aged(before, now);
    assert(lease_table::finds(v1.seeds, lease_table::about_key(net), e));
    let q = |x: Slot<I>| x.ident == e.extra.via_ident;
    assert forall|j: int| 0 <= j < i implies !q(#[trigger] before.slots[j]) by {
        assert(before.slots[j].ident != before.slots[i].ident);
    }
    lease_table::first_where_is(before.slots, q, i);
}

/// A network whose lease has expired is not reached while it is reserved.
pub proof fn frames_do_not_reach_expired_networks<I: Interface>(
    before: RouterView<I>,
    after: RouterView<I>,
    hdr: Header,
    what: Payload,
    source: Option<u8>,
    now: Nanos,
    r: Result<(), InterfaceSendError>,
    k: int,
    n: nat,
    s: nat,
    c: nat,
)
    requires
        model::router_wf(before, n, s, c),
        model::sent(before, after, hdr, what, source, now, r),
        for_one(hdr, what),
        no_segment(before, hdr.dst.network_id),
        0 <= k < before.seeds.len(),
        before.seeds[k].key == hdr.dst.network_id,
        !running(before.seeds[k].kind, now),
        taken(before.seeds[k].kind, now),
    ensures
        nothing_sent(before, after),
        r == Err::<(), _>(InterfaceSendError::NoRouteToDest),
{
    let net = hdr.dst.network_id;
    let e = before.seeds[k];
    lease_table::first_where_none(before.slots, |x: Slot<I>| x.net_id == net);
    lease::time_takes_expired_leases(e.kind, now);
    lease_table::lookup_after_key(before.seeds, lease_table::entry_aged(now), net);
    let f = lease_table::entry_aged::<u16, SeedRoute>(now);
    assert(f(e) is Some);
    let v1 = model::with_seeds_aged(before, now);
    assert(lease_table::finds(v1.seeds, lease_table::about_key(net), f(e)->0));
}

/// A frame for a network that is neither a direct segment nor taken by a route
/// goes to the upstream, wherever else it came from. What came from the upstream
/// does not go back, and without an upstream there is no way.
pub proof fn other_frames_go_upstream<I: Interface>(
    before: RouterView<I>,
    after: RouterView<I>,
    hdr: Header,
    what: Payload,
    source: Option<u8>,
    now: Nanos,
    r: Result<(), InterfaceSendError>,
    n: nat,
    s: nat,
    c: nat,
)
    requires
        model::router_wf(before, n, s, c),
        model::sent(before, after, hdr, what, source, now, r),
        for_one(hdr, what),
        no_segment(before, hdr.dst.network_id),
        forall|k: int|
            0 <= k < before.seeds.len() && (#[trigger] before.seeds[k]).key
                == hdr.dst.network_id ==> !taken(before.seeds[k].kind, now),
    ensures
        if before.upstream is None {
            nothing_sent(before, after) && r == Err::<(), _>(InterfaceSendError::NoRouteToDest)
        } else if source == Some(255u8) {
            nothing_sent(before, after) && r == Err::<(), _>(InterfaceSendError::RoutingLoop)
        } else {
            sent_up(before, after, one_hop(hdr), what, r)
        },
{
    let net = hdr.dst.network_id;
    let f = lease_table::entry_aged::<u16, SeedRoute>(now);
    lease_table::first_where_none(before.slots, |x: Slot<I>| x.net_id == net);
    assert forall|k: int|
        0 <= k < before.seeds.len() && (#[trigger] before.seeds[k]).key == net implies f(
        before.seeds[k],
    ) is None by {
        lease::time_takes_expired_leases(before.seeds[k].kind, now);
    }
    lease_table::lookup_after_key(before.seeds, f, net);
}

/// A frame for any socket of a node needs a key, one without hops goes nowhere,
/// and whatever is sent, the claims stay as they are and no seed route changes but
/// by its time being up.
pub proof fn sending_changes_nothing_else<I: Interface>(
    before: RouterView<I>,
    after: RouterView<I>,
    hdr: Header,
    what: Payload,
    source: Option<u8>,
    now: Nanos,
    r: Result<(), InterfaceSendError>,
)
    requires
        model::sent(before, after, hdr, what, source, now, r),
    ensures
        hdr.ttl == 0 ==> nothing_sent(before, after) && r == Err::<(), _>(
            InterfaceSendError::TtlExpired,
        ),
        hdr.ttl > 0 && hdr.dst.port_id == 0 && hdr.any_all is None ==> nothing_sent(before, after)
            && r == Err::<(), _>(InterfaceSendError::AnyPortMissingKey),
        hdr.ttl > 0 && hdr.dst.port_id == 255 && hdr.any_all is None && !(what is Error)
            ==> nothing_sent(before, after) && r == Err::<(), _>(
            InterfaceSendError::AnyPortMissingKey,
        ),
        after.claims == before.claims,
        after.claimed_at == before.claimed_at,
        after.seeds == before.seeds || after.seeds == lease_table::table_aged(before.seeds, now),
{
}

// ---------------------------------------------------------------------------
// Broadcasts
// ---------------------------------------------------------------------------
/// A broadcast with hops left and a key.
pub open spec fn for_all(hdr: Header, what: Payload) -> bool {
    &&& hdr.ttl > 0
    &&& hdr.dst.port_id == 255
    &&& hdr.any_all is Some
    &&& !(what is Error)
}

/// Whether a broadcast is meant for the downstream interface at `i`: one that
/// came in is for every interface but the one it came in on, one that originates
/// here is for every segment that has a number.
pub open spec fn meant_for<I: Interface>(v: RouterView<I>, source: Option<u8>, i: int) -> bool {
    match source {
        Some(ident) => v.slots[i].ident != ident,
        None => v.slots[i].net_id != 0,
    }
}

/// A broadcast is handed to the port of every downstream interface that it is
/// meant for, addressed to the device there, and to the upstream, if there is one
/// and it did not come from there. No other interface is touched. The results of
/// the ports come back: for each downstream interface, and last for the upstream.
pub proof fn broadcasts_reach_every_interface<I: Interface>(
    before: RouterView<I>,
    after: RouterView<I>,
    hdr: Header,
    what: Payload,
    source: Option<u8>,
    now: Nanos,
    r: Result<(), InterfaceSendError>,
) -> (legs: Seq<Option<Result<(), InterfaceSendError>>>)
    requires
        model::sent(before, after, hdr, what, source, now, r),
        for_all(hdr, what),
    ensures
        legs.len() == before.slots.len() + 1,
        after.slots.len() == before.slots.len(),
        forall|i: int|
            0 <= i < before.slots.len() && meant_for(before, source, i) ==> {
                &&& (#[trigger] legs[i]) matches Some(leg) && EdgePort::sent(
                    before.slots[i].port,
                    after.slots[i].port,
                    (Header {
                        ttl: (hdr.ttl - 1) as u8,
                        dst: Address {
                            network_id: before.slots[i].net_id,
                            node_id: 2,
                            port_id: 255,
                        },
                        ..hdr
                    }),
                    what,
                    leg,
                )
                &&& after.slots[i].ident == before.slots[i].ident
                &&& after.slots[i].net_id == before.slots[i].net_id
                &&& after.slots[i].closer == before.slots[i].closer
            },
        forall|i: int|
            0 <= i < before.slots.len() && !meant_for(before, source, i) ==> (#[trigger] legs[i])
                is None && after.slots[i] == before.slots[i],
        match before.upstream {
            Some(up) => if source == Some(255u8) {
                legs.last() is None && after.upstream == before.upstream
            } else {
                legs.last() matches Some(leg) && after.upstream matches Some(up2)
                    && up2.closer == up.closer && exists|out: Header|
                    {
                        &&& #[trigger] EdgePort::sent(up.port, up2.port, out, what, leg)
                        &&& broadcast_upwards(before, source, hdr, out)
                    }
            },
            None => legs.last() is None && after.upstream is None,
        },
        // What is reported
        r is Ok <==> exists|i: int|
            0 <= i < legs.len() && went_out(#[trigger] legs[i]),
        r matches Err(e) ==> {
            ||| exists|i: int| #[trigger] last_worth_reporting(legs, i, e)
            ||| {
                &&& forall|i: int|
                    0 <= i < legs.len() ==> !worth_reporting(#[trigger] legs[i])
                &&& e == (if source is Some && (before.slots.len() > 0 || before.upstream is Some)
                    && forall|i: int| 0 <= i < legs.len() ==> (#[trigger] legs[i]) is None {
                    InterfaceSendError::RoutingLoop
                } else {
                    InterfaceSendError::NoRouteToDest
                })
            }
        },
{
    let h = one_hop(hdr);
    if source is Some && before.slots.len() == 0 && before.upstream is None {
        let legs = seq![None::<Result<(), InterfaceSendError>>];
        assert(legs.len() == 1 && legs[0] is None);
        legs
    } else {
        let fallback = if source is Some && !model::any_leg(before, source) {
            InterfaceSendError::RoutingLoop
        } else {
            InterfaceSendError::NoRouteToDest
        };
        let legs = choose|legs: Seq<Option<Result<(), InterfaceSendError>>>|
            {
                &&& legs.len() == before.slots.len() + 1
                &&& model::slot_legs(
                    before.slots,
                    after.slots,
                    h,
                    what,
                    source,
                    legs,
                    before.slots.len(),
                )
                &&& model::upstream_leg(before, after.upstream, h, what, source, legs.last())
                &&& r == model::broadcast_result(#[trigger] model::legs_folded(legs), fallback)
            };
        assert(legs.last() == legs[legs.len() - 1]);
        lemma_fold(legs);
        lemma_upwards(before, source, hdr, before.slots.len());
        lemma_untried(before, source, legs);
        legs
    }
}

/// Whether a port was tried and took the frame.
pub open spec fn went_out(leg: Option<Result<(), InterfaceSendError>>) -> bool {
    leg matches Some(Ok(_))
}

/// Whether the result of a port is worth reporting: it was tried and failed, and
/// not because there is nobody there to send to.
pub open spec fn worth_reporting(leg: Option<Result<(), InterfaceSendError>>) -> bool {
    leg matches Some(Err(e)) && e != InterfaceSendError::NoRouteToDest && e
        != InterfaceSendError::RoutingLoop && e != InterfaceSendError::DestinationLocal
}

/// Whether `e` is the last failure that is worth reporting, at `i`.
pub open spec fn last_worth_reporting(
    legs: Seq<Option<Result<(), InterfaceSendError>>>,
    i: int,
    e: InterfaceSendError,
) -> bool {
    &&& 0 <= i < legs.len()
    &&& worth_reporting(legs[i])
    &&& legs[i] == Some(Err::<(), _>(e))
    &&& forall|j: int| i < j < legs.len() ==> !worth_reporting(#[trigger] legs[j])
}

/// The header with which a broadcast goes up: its own, one hop further. Of one that
/// is passed on, the destination is that of the last segment that it was tried
/// on.
pub open spec fn broadcast_upwards<I: Interface>(
    v: RouterView<I>,
    source: Option<u8>,
    hdr: Header,
    out: Header,
) -> bool {
    &&& out == (Header { ttl: (hdr.ttl - 1) as u8, dst: out.dst, ..hdr })
    &&& {
        ||| out.dst == hdr.dst && (source is None || forall|i: int|
            0 <= i < v.slots.len() ==> !#[trigger] meant_for(v, source, i))
        ||| source is Some && exists|i: int|
            #![trigger v.slots[i]]
            {
                &&& 0 <= i < v.slots.len()
                &&& meant_for(v, source, i)
                &&& out.dst == (Address {
                    network_id: v.slots[i].net_id,
                    node_id: 2,
                    port_id: 255,
                })
                &&& forall|j: int|
                    i < j < v.slots.len() ==> !#[trigger] meant_for(v, source, j)
            }
    }
}

proof fn lemma_upwards<I: Interface>(v: RouterView<I>, source: Option<u8>, hdr: Header, k: nat)
    requires
        hdr.ttl > 0,
        hdr.dst.port_id == 255,
        k <= v.slots.len(),
        forall|j: int| k <= j < v.slots.len() ==> !#[trigger] meant_for(v, source, j),
    ensures
        source is Some ==> broadcast_upwards(
            v,
            source,
            hdr,
            model::upstream_leg_header(v.slots, one_hop(hdr), source, k),
        ),
        source is None ==> broadcast_upwards(
            v,
            source,
            hdr,
            model::upstream_leg_header(v.slots, one_hop(hdr), source, v.slots.len()),
        ),
    decreases k,
{
    if k > 0 && source is Some {
        if meant_for(v, source, k - 1) {
            assert(v.slots[k - 1].ident != source->0);
        } else {
            lemma_upwards(v, source, hdr, (k - 1) as nat);
        }
    }
}

proof fn lemma_untried<I: Interface>(
    v: RouterView<I>,
    source: Option<u8>,
    legs: Seq<Option<Result<(), InterfaceSendError>>>,
)
    requires
        legs.len() == v.slots.len() + 1,
        forall|i: int|
            0 <= i < v.slots.len() ==> ((#[trigger] legs[i]) is Some <==> meant_for(v, source, i)),
        legs.last() is Some <==> v.upstream is Some && source != Some(255u8),
    ensures
        model::any_leg(v, source) <==> !(forall|i: int|
            0 <= i < legs.len() ==> (#[trigger] legs[i]) is None),
{
    if model::any_leg(v, source) {
        if v.upstream is Some && source != Some(255u8) {
            assert(legs[legs.len() - 1] is Some);
        } else {
            let i = choose|i: int|
                0 <= i < v.slots.len() && model::leg_tried(#[trigger] v.slots[i], source);
            assert(legs[i] is Some);
        }
    } else {
        assert forall|i: int| 0 <= i < legs.len() implies (#[trigger] legs[i]) is None by {
            if i < v.slots.len() {
                assert(!model::leg_tried(v.slots[i], source));
            }
        }
    }
}

proof fn lemma_fold(legs: Seq<Option<Result<(), InterfaceSendError>>>)
    ensures
        model::legs_folded(legs).0 <==> exists|i: int|
            0 <= i < legs.len() && went_out(#[trigger] legs[i]),
        match model::legs_folded(legs).1 {
            Some(e) => exists|i: int| #[trigger] last_worth_reporting(legs, i, e),
            None => forall|i: int| 0 <= i < legs.len() ==> !worth_reporting(#[trigger] legs[i]),
        },
    decreases legs.len(),
{
    if legs.len() > 0 {
        let rest = legs.drop_last();
        let last = legs.len() - 1;
        lemma_fold(rest);
        assert(legs[last] == legs.last());
        if exists|i: int| 0 <= i < rest.len() && went_out(#[trigger] rest[i]) {
            let i = choose|i: int| 0 <= i < rest.len() && went_out(#[trigger] rest[i]);
            assert(went_out(legs[i]));
        }
        if exists|i: int| 0 <= i < legs.len() && went_out(#[trigger] legs[i]) {
            let i = choose|i: int| 0 <= i < legs.len() && went_out(#[trigger] legs[i]);
            if i < last {
                assert(went_out(rest[i]));
            }
        }
        match model::legs_folded(legs).1 {
            Some(e) => {
                if worth_reporting(legs[last]) {
                    assert(last_worth_reporting(legs, last, e));
                } else {
                    let i = choose|i: int| #[trigger] last_worth_reporting(rest, i, e);
                    assert forall|j: int| i < j < legs.len() implies !worth_reporting(
                        #[trigger] legs[j],
                    ) by {
                        if j < last {
                            assert(!worth_reporting(rest[j]));
                        }
                    }
                    assert(last_worth_reporting(legs, i, e));
                }
            },
            None => {
                assert forall|i: int| 0 <= i < legs.len() implies !worth_reporting(
                    #[trigger] legs[i],
                ) by {
                    if i < last {
                        assert(!worth_reporting(rest[i]));
                    }
                }
            },
        }
    }
}

} // verus!

//! Which socket a frame ends up in, and what its sender is told.

use vstd::prelude::*;
use crate::interface_manager::{InterfaceSendError, Payload, Profile, ProfileStep};
use crate::net_stack;
use crate::net_stack::{NetStack, NetStackSendError};
use crate::socket::borrow;
use crate::socket::borrow::Socket;
use crate::socket::frame_queue;
use crate::socket::{SocketHeader, SocketSendError};
use crate::wire_frames;
use crate::{AnyAllAppendix, FrameKind, Header, ProtocolError};

verus! {

/// Whether a socket has the kind and the key that are asked for, and the name, if
/// one is.
pub open spec fn fits(s: SocketHeader, hdr: Header, apdx: AnyAllAppendix) -> bool {
    &&& s.attrs.kind.0 == hdr.kind.0
    &&& s.key.0@ == apdx.key.0@
    &&& apdx.nash is None || s.nash == apdx.nash
}

/// The one socket at `i` was offered the frame, and its answer is the result.
pub open spec fn answered_by(
    before: Seq<Socket>,
    after: Seq<Socket>,
    i: int,
    hdr: Header,
    what: Payload,
    r: Result<(), NetStackSendError>,
) -> bool {
    &&& after == before.update(i, after[i])
    &&& Socket::offered(before[i], after[i], hdr, what, r is Ok)
    &&& r matches Err(e) ==> e == NetStackSendError::SocketSend(SocketSendError::NoSpace)
}

/// A message to a port is offered to the first socket there, if it takes messages
/// of this kind.
pub proof fn messages_reach_their_port(
    before: Seq<Socket>,
    after: Seq<Socket>,
    hdr: Header,
    what: Payload,
    r: Result<(), NetStackSendError>,
    i: int,
)
    requires
        net_stack::delivered(before, after, hdr, what, r),
        hdr.dst.port_id != 0,
        0 <= i < before.len(),
        before[i].header().port == hdr.dst.port_id,
        forall|j: int| 0 <= j < i ==> (#[trigger] before[j]).header().port != hdr.dst.port_id,
    ensures
        before[i].header().attrs.kind.0 == hdr.kind.0 ==> answered_by(
            before,
            after,
            i,
            hdr,
            what,
            r,
        ),
        before[i].header().attrs.kind.0 != hdr.kind.0 ==> after == before && r == Err::<(), _>(
            NetStackSendError::WrongPortKind,
        ),
{
    let found = choose|found: Result<usize, NetStackSendError>|
        {
            &&& #[trigger] net_stack::socket_found(before, hdr, found)
            &&& match found {
                Err(e) => r == Err::<(), _>(e) && after == before,
                Ok(i) => {
                    &&& net_stack::offered_to_one(before, after, i as int, hdr, what, r is Ok)
                    &&& r matches Err(e) ==> e == NetStackSendError::SocketSend(
                        SocketSendError::NoSpace,
                    )
                },
            }
        };
    assert(before[i].header().attrs.kind == hdr.kind <==> before[i].header().attrs.kind.0
        == hdr.kind.0);
    match found {
        Ok(k) => {
            if k < i {
                assert(before[k as int].header().port != hdr.dst.port_id);
            }
            assert(k == i);
        },
        Err(NetStackSendError::WrongPortKind) => {
            let k = choose|k: int| #[trigger]
                net_stack::first_on_port(before, hdr.dst.port_id, k) && before[k].header().attrs.kind
                    != hdr.kind;
            if k < i {
                assert(before[k].header().port != hdr.dst.port_id);
            }
            assert(k == i);
        },
        _ => {},
    }
}

/// A message to a port that no socket is on has no route.
pub proof fn messages_to_free_ports_have_no_route(
    before: Seq<Socket>,
    after: Seq<Socket>,
    hdr: Header,
    what: Payload,
    r: Result<(), NetStackSendError>,
)
    requires
        net_stack::delivered(before, after, hdr, what, r),
        hdr.dst.port_id != 0,
        forall|j: int| 0 <= j < before.len() ==> (#[trigger] before[j]).header().port
            != hdr.dst.port_id,
    ensures
        r == Err::<(), _>(NetStackSendError::NoRoute),
        after == before,
{
}

/// Whether the "any" port leads to a socket: it can be discovered, is not there for
/// broadcasts, and fits.
pub open spec fn found_by_key(s: SocketHeader, hdr: Header, apdx: AnyAllAppendix) -> bool {
    s.port != 255 && s.attrs.discoverable && fits(s, hdr, apdx)
}

/// The two ways to say that the "any" port leads to a socket.
proof fn lemma_found_by_key(s: SocketHeader, hdr: Header, apdx: AnyAllAppendix)
    ensures
        net_stack::any_match(s, hdr, apdx) == found_by_key(s, hdr, apdx),
{
    assert(s.attrs.kind == hdr.kind <==> s.attrs.kind.0 == hdr.kind.0);
}

/// A message to the "any" port is offered to the one socket that it leads to.
pub proof fn messages_reach_their_key(
    before: Seq<Socket>,
    after: Seq<Socket>,
    hdr: Header,
    apdx: AnyAllAppendix,
    what: Payload,
    r: Result<(), NetStackSendError>,
    i: int,
)
    requires
        net_stack::delivered(before, after, hdr, what, r),
        hdr.dst.port_id == 0,
        hdr.any_all == Some(apdx),
        0 <= i < before.len(),
        found_by_key(before[i].header(), hdr, apdx),
        forall|j: int|
            0 <= j < before.len() && j != i ==> !found_by_key(
                (#[trigger] before[j]).header(),
                hdr,
                apdx,
            ),
    ensures
        answered_by(before, after, i, hdr, what, r),
{
    assert forall|s: SocketHeader| #[trigger]
        net_stack::any_match(s, hdr, apdx) == found_by_key(s, hdr, apdx) by {
        lemma_found_by_key(s, hdr, apdx);
    }
    assert(net_stack::any_match(before[i].header(), hdr, apdx));
}

/// A message to the "any" port that leads nowhere has no route; one that leads to
/// several sockets is offered to none of them, and so is one that says no key.
pub proof fn ambiguous_messages_are_refused(
    before: Seq<Socket>,
    after: Seq<Socket>,
    hdr: Header,
    what: Payload,
    r: Result<(), NetStackSendError>,
    i: int,
    k: int,
)
    requires
        net_stack::delivered(before, after, hdr, what, r),
        hdr.dst.port_id == 0,
        0 <= i < before.len(),
        0 <= k < before.len(),
        i != k,
    ensures
        hdr.any_all is None ==> after == before && r == Err::<(), _>(
            NetStackSendError::AnyPortMissingKey,
        ),
        hdr.any_all matches Some(apdx) ==> found_by_key(before[i].header(), hdr, apdx)
            && found_by_key(before[k].header(), hdr, apdx) ==> after == before && r == Err::<(), _>(
            NetStackSendError::AnyPortNotUnique,
        ),
{
    if let Some(apdx) = hdr.any_all {
        assert forall|s: SocketHeader| #[trigger]
            net_stack::any_match(s, hdr, apdx) == found_by_key(s, hdr, apdx) by {
            lemma_found_by_key(s, hdr, apdx);
        }
        assert(net_stack::any_match(before[i].header(), hdr, apdx) == found_by_key(
            before[i].header(),
            hdr,
            apdx,
        ));
        assert(net_stack::any_match(before[k].header(), hdr, apdx) == found_by_key(
            before[k].header(),
            hdr,
            apdx,
        ));
    }
}

/// A message to the "any" port has no route if no socket is there for its key, and
/// cannot be delivered without a key.
pub proof fn messages_without_a_socket_have_no_route(
    before: Seq<Socket>,
    after: Seq<Socket>,
    hdr: Header,
    what: Payload,
    r: Result<(), NetStackSendError>,
)
    requires
        net_stack::delivered(before, after, hdr, what, r),
        hdr.dst.port_id == 0,
        hdr.any_all matches Some(apdx) ==> forall|j: int|
            0 <= j < before.len() ==> !found_by_key((#[trigger] before[j]).header(), hdr, apdx),
    ensures
        after == before,
        r == Err::<(), _>(
            if hdr.any_all is None {
                NetStackSendError::AnyPortMissingKey
            } else {
                NetStackSendError::NoRoute
            },
        ),
{
    if let Some(apdx) = hdr.any_all {
        assert forall|s: SocketHeader| #[trigger]
            net_stack::any_match(s, hdr, apdx) == found_by_key(s, hdr, apdx) by {
            lemma_found_by_key(s, hdr, apdx);
        }
    }
}

/// A protocol error is offered to the first socket on its port, whatever kind of
/// messages the socket takes. That counts as delivered, whether or not there was
/// room.
pub proof fn errors_reach_their_port(
    before: Seq<Socket>,
    after: Seq<Socket>,
    hdr: Header,
    err: ProtocolError,
    r: Result<(), NetStackSendError>,
    i: int,
)
    requires
        net_stack::error_delivered(before, after, hdr, err, r),
        0 <= i < before.len(),
        before[i].header().port == hdr.dst.port_id,
        forall|j: int| 0 <= j < i ==> (#[trigger] before[j]).header().port != hdr.dst.port_id,
    ensures
        r == Ok::<(), NetStackSendError>(()),
        after == before.update(i, after[i]),
        exists|taken: bool| #[trigger]
            Socket::offered(before[i], after[i], hdr, Payload::Error(err), taken),
{
    assert(net_stack::first_on_port(before, hdr.dst.port_id, i));
    let (k, taken) = choose|k: int, taken: bool|
        {
            &&& net_stack::first_on_port(before, hdr.dst.port_id, k)
            &&& #[trigger] net_stack::offered_to_one(
                before,
                after,
                k,
                hdr,
                Payload::Error(err),
                taken,
            )
        };
    if k < i {
        assert(before[k].header().port != hdr.dst.port_id);
    } else if i < k {
        assert(before[i].header().port != hdr.dst.port_id);
    }
    assert(k == i);
}

/// A protocol error to a port that no socket is on has no route.
pub proof fn errors_to_free_ports_have_no_route(
    before: Seq<Socket>,
    after: Seq<Socket>,
    hdr: Header,
    err: ProtocolError,
    r: Result<(), NetStackSendError>,
)
    requires
        net_stack::error_delivered(before, after, hdr, err, r),
        forall|j: int| 0 <= j < before.len() ==> (#[trigger] before[j]).header().port
            != hdr.dst.port_id,
    ensures
        r == Err::<(), _>(NetStackSendError::NoRoute),
        after == before,
{
}

/// Whether a socket is there for a broadcast.
pub open spec fn listens(s: SocketHeader, hdr: Header, apdx: AnyAllAppendix) -> bool {
    s.port == 255 && fits(s, hdr, apdx)
}

/// A broadcast is offered to every socket that listens to it, and to no other; it
/// is offered to the profile as well. It fails only if nobody here listens and an
/// interface that exists could not send it.
pub proof fn broadcasts_reach_all_listeners<P: Profile>(
    before: NetStack<P>,
    after: NetStack<P>,
    hdr: Header,
    apdx: AnyAllAppendix,
    what: Payload,
    source: Option<P::InterfaceIdent>,
    r: Result<(), NetStackSendError>,
) -> (pr: Result<(), InterfaceSendError>)
    requires
        net_stack::message_sent(before, after, hdr, what, source, r),
        hdr.kind.0 != 0,
        hdr.dst.port_id == 255,
        hdr.any_all == Some(apdx),
    ensures
        net_stack::profile_step(
            before.profile,
            after.profile,
            (ProfileStep::Sent { hdr, what, source, r: pr }),
        ),
        after.sockets@.len() == before.sockets@.len(),
        forall|i: int|
            0 <= i < before.sockets@.len() ==> {
                let was = #[trigger] before.sockets@[i];
                let is = after.sockets@[i];
                if listens(was.header(), hdr, apdx) {
                    Socket::offered(was, is, hdr, what, true) || Socket::offered(
                        was,
                        is,
                        hdr,
                        what,
                        false,
                    )
                } else {
                    is == was
                }
            },
        r is Ok <==> {
            ||| exists|i: int|
                0 <= i < before.sockets@.len() && listens(
                    (#[trigger] before.sockets@[i]).header(),
                    hdr,
                    apdx,
                )
            ||| pr is Ok
            ||| pr == Err::<(), _>(InterfaceSendError::NoRouteToDest)
            ||| pr == Err::<(), _>(InterfaceSendError::RoutingLoop)
        },
        r matches Err(e) ==> e == NetStackSendError::NoRoute,
{
    let pr = choose|pr: Result<(), InterfaceSendError>|
        {
            &&& net_stack::offered_to_all(
                before.sockets@,
                after.sockets@,
                hdr,
                apdx,
                what,
                before.sockets@.len(),
            )
            &&& #[trigger] net_stack::profile_step(
                before.profile,
                after.profile,
                ProfileStep::Sent { hdr, what, source, r: pr },
            )
            &&& r == net_stack::broadcast_result(
                net_stack::has_audience(before.sockets@, hdr, apdx),
                pr,
            )
        };
    assert forall|s: SocketHeader| #[trigger]
        net_stack::all_match(s, hdr, apdx) == listens(s, hdr, apdx) by {
        assert(s.attrs.kind == hdr.kind <==> s.attrs.kind.0 == hdr.kind.0);
    }
    assert forall|i: int| 0 <= i < before.sockets@.len() implies {
        let was = #[trigger] before.sockets@[i];
        let is = after.sockets@[i];
        if listens(was.header(), hdr, apdx) {
            Socket::offered(was, is, hdr, what, true) || Socket::offered(was, is, hdr, what, false)
        } else {
            is == was
        }
    } by {
        assert(net_stack::offered_if_listening(
            before.sockets@[i],
            after.sockets@[i],
            hdr,
            apdx,
            what,
        ));
        assert(net_stack::all_match(before.sockets@[i].header(), hdr, apdx) == listens(
            before.sockets@[i].header(),
            hdr,
            apdx,
        ));
    }
    assert(net_stack::has_audience(before.sockets@, hdr, apdx) <==> exists|i: int|
        0 <= i < before.sockets@.len() && listens(
            (#[trigger] before.sockets@[i]).header(),
            hdr,
            apdx,
        ));
    pr
}

/// A broadcast without a key is refused, and so is a protocol error where a message
/// is expected. Nobody is offered either.
pub proof fn some_messages_are_refused<P: Profile>(
    before: NetStack<P>,
    after: NetStack<P>,
    hdr: Header,
    what: Payload,
    source: Option<P::InterfaceIdent>,
    r: Result<(), NetStackSendError>,
)
    requires
        net_stack::message_sent(before, after, hdr, what, source, r),
    ensures
        hdr.kind.0 == 0 ==> after == before && r == Err::<(), _>(NetStackSendError::NoRoute),
        hdr.kind.0 != 0 && hdr.dst.port_id == 255 && hdr.any_all is None ==> after == before && r
            == Err::<(), _>(NetStackSendError::AllPortMissingKey),
{
    assert(hdr.kind == FrameKind(0) <==> hdr.kind.0 == 0);
}

/// A message for `0:0` goes to the sockets of this node. Every other message for
/// one destination is offered to the profile: what the profile sent is done with,
/// what it says is for this node goes to the sockets, and its refusal is what the
/// sender is told.
pub proof fn messages_go_where_they_belong<P: Profile>(
    before: NetStack<P>,
    after: NetStack<P>,
    hdr: Header,
    what: Payload,
    source: Option<P::InterfaceIdent>,
    r: Result<(), NetStackSendError>,
)
    requires
        net_stack::message_sent(before, after, hdr, what, source, r),
        hdr.kind.0 != 0,
        hdr.dst.port_id != 255,
    ensures
        hdr.dst.network_id == 0 && hdr.dst.node_id == 0 ==> after.profile == before.profile
            && net_stack::delivered(before.sockets@, after.sockets@, hdr, what, r),
        !(hdr.dst.network_id == 0 && hdr.dst.node_id == 0) ==> exists|
            pr: Result<(), InterfaceSendError>,
        |
            #[trigger] net_stack::profile_step(
                before.profile,
                after.profile,
                ProfileStep::Sent { hdr, what, source, r: pr },
            ) && match pr {
                Ok(_) => r is Ok && after.sockets@ == before.sockets@,
                Err(InterfaceSendError::DestinationLocal) => net_stack::delivered(
                    before.sockets@,
                    after.sockets@,
                    hdr,
                    what,
                    r,
                ),
                Err(e) => r == Err::<(), _>(NetStackSendError::InterfaceSend(e))
                    && after.sockets@ == before.sockets@,
            },
{
    assert(hdr.kind == FrameKind(0) <==> hdr.kind.0 == 0);
}

/// Protocol errors go the same ways. Only those for an "any" or "all" port are
/// refused, without being offered to anybody.
pub proof fn errors_go_where_they_belong<P: Profile>(
    before: NetStack<P>,
    after: NetStack<P>,
    hdr: Header,
    err: ProtocolError,
    source: Option<P::InterfaceIdent>,
    r: Result<(), NetStackSendError>,
)
    requires
        net_stack::error_sent(before, after, hdr, err, source, r),
    ensures
        hdr.dst.port_id == 0 || hdr.dst.port_id == 255 ==> after == before && r == Err::<(), _>(
            NetStackSendError::NoRoute,
        ),
        1 <= hdr.dst.port_id <= 254 && hdr.dst.network_id == 0 && hdr.dst.node_id == 0
            ==> after.profile == before.profile && net_stack::error_delivered(
            before.sockets@,
            after.sockets@,
            hdr,
            err,
            r,
        ),
        1 <= hdr.dst.port_id <= 254 && !(hdr.dst.network_id == 0 && hdr.dst.node_id == 0)
            ==> exists|pr: Result<(), InterfaceSendError>|
            #[trigger] net_stack::profile_step(
                before.profile,
                after.profile,
                ProfileStep::Sent { hdr, what: Payload::Error(err), source, r: pr },
            ) && match pr {
                Ok(_) => r is Ok && after.sockets@ == before.sockets@,
                Err(InterfaceSendError::DestinationLocal) => net_stack::error_delivered(
                    before.sockets@,
                    after.sockets@,
                    hdr,
                    err,
                    r,
                ),
                Err(e) => r == Err::<(), _>(NetStackSendError::InterfaceSend(e))
                    && after.sockets@ == before.sockets@,
            },
{
}

// ---------------------------------------------------------------------------
// Sockets
// ---------------------------------------------------------------------------
/// A socket keeps what fits. A message that originates here, or an error, fits if
/// it is no longer than the MTU, and takes as much room as the MTU. A message from
/// elsewhere takes just the room that it needs, and always fits as far as its length
/// can be written down.
pub proof fn sockets_keep_what_fits(mtu: u16, hdr: Header, body: Seq<u8>, err: ProtocolError)
    ensures
        ({
            let message = wire_frames::frame_ty_bytes(hdr, body);
            let error = wire_frames::frame_err_bytes(hdr, err);
            &&& message.len() <= mtu ==> borrow::kept_frame(mtu, hdr, Payload::Message(body))
                == Some((message, mtu))
            &&& message.len() > mtu ==> borrow::kept_frame(mtu, hdr, Payload::Message(body)) is None
            &&& error.len() <= mtu ==> borrow::kept_frame(mtu, hdr, Payload::Error(err)) == Some(
                (error, mtu),
            )
            &&& error.len() > mtu ==> borrow::kept_frame(mtu, hdr, Payload::Error(err)) is None
            &&& message.len() <= 65535 ==> borrow::kept_frame(mtu, hdr, Payload::Raw(body)) == Some(
                (message, message.len() as u16),
            )
            &&& message.len() > 65535 ==> borrow::kept_frame(mtu, hdr, Payload::Raw(body)) is None
        }),
{
}

/// A frame that fits is taken exactly if the queue has room for it; it then waits
/// behind the others, and whoever waits for the socket is woken. Of a frame that is
/// not taken nothing is kept, and nobody is woken; only one that originates here, or an
/// error, has had a piece of the queue granted before it turns out not to fit.
pub proof fn sockets_take_what_fits(
    before: Socket,
    after: Socket,
    hdr: Header,
    what: Payload,
    taken: bool,
)
    requires
        Socket::offered(before, after, hdr, what, taken),
    ensures
        after.header() == before.header(),
        after.spec_mtu() == before.spec_mtu(),
        after.capacity() == before.capacity(),
        after.is_reading() == before.is_reading(),
        match borrow::kept_frame(before.spec_mtu(), hdr, what) {
            None => !taken,
            Some((frame, size)) => {
                &&& taken <==> before.has_room(size)
                &&& taken ==> after.frames() == before.frames().push(frame)
                &&& !taken ==> after.marks() == before.marks()
            },
        },
        borrow::kept_frame(before.spec_mtu(), hdr, what) is None ==> after.marks() == (if what
            is Raw {
            before.marks()
        } else {
            frame_queue::given_up(
                before.marks(),
                before.capacity(),
                (before.spec_mtu() + 2) as nat,
            )
        }),
        taken ==> after.stored() is None && (before.stored() matches Some(w) ==> borrow::woken(w)),
        !taken ==> after.frames() == before.frames() && after.stored() == before.stored(),
{
}

/// A socket gives its oldest frame, and one at a time.
pub proof fn sockets_give_their_oldest_frame(s: Socket)
    ensures
        s.is_reading() ==> borrow::next_response(s) is None,
        s.frames().len() == 0 ==> borrow::next_response(s) is None,
        !s.is_reading() && s.frames().len() > 0 ==> match wire_frames::decode(s.frames()[0]) {
            Some((hdr, content, used)) => borrow::next_response(s) == Some((hdr, content)),
            None => borrow::next_response(s) is None,
        },
{
}

/// A socket that was attached on a free port is the one that messages of its kind to
/// that port are offered to. Being attached changes nothing of it but its port.
pub proof fn attached_sockets_are_reached(
    socket: Socket,
    others: Seq<Socket>,
    before: Seq<Socket>,
    after: Seq<Socket>,
    port: u8,
    hdr: Header,
    what: Payload,
    r: Result<(), NetStackSendError>,
)
    requires
        before.len() == others.len() + 1,
        before.drop_last() == others,
        net_stack::attached(socket, before.last(), port),
        forall|j: int| 0 <= j < others.len() ==> (#[trigger] others[j]).header().port != port,
        port != 0,
        hdr.dst.port_id == port,
        hdr.kind.0 == socket.header().attrs.kind.0,
        net_stack::delivered(before, after, hdr, what, r),
    ensures
        answered_by(before, after, others.len() as int, hdr, what, r),
        before.last().header().port == port,
        before.last().header().attrs == socket.header().attrs,
        before.last().header().key == socket.header().key,
        before.last().header().nash == socket.header().nash,
        before.last().frames() == socket.frames(),
        before.last().spec_mtu() == socket.spec_mtu(),
        before.last().capacity() == socket.capacity(),
        before.last().marks() == socket.marks(),
        before.last().is_reading() == socket.is_reading(),
        before.last().stored() == socket.stored(),
{
    let i = others.len() as int;
    assert forall|j: int| 0 <= j < i implies (#[trigger] before[j]).header().port
        != hdr.dst.port_id by {
        assert(others[j] == before[j]);
    }
    messages_reach_their_port(before, after, hdr, what, r, i);
}

// ---------------------------------------------------------------------------
// Errors
// ---------------------------------------------------------------------------
/// The sender of a frame can tell by the protocol error why it was not delivered:
/// different reasons are reported differently.
pub proof fn reasons_are_told_apart(a: NetStackSendError, b: NetStackSendError)
    requires
        a.error() == b.error(),
    ensures
        a == b,
{
}

} // verus!

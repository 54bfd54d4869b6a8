//! The net stack: delivers frames to the sockets of this node, and hands the
//! others to the profile.

use vstd::prelude::*;
use crate::interface_manager::{InterfaceSendError, Payload, Profile, ProfileStep};
use crate::nash::NameHash;
use crate::socket::borrow;
use crate::socket::borrow::Socket;
use crate::socket::{SocketHeader, SocketSendError};
use crate::{AnyAllAppendix, FrameKind, Header, ProtocolError};

verus! {

/// Why the stack did not deliver a frame.
#[derive(Clone, Copy, Debug, PartialEq, Eq, Structural)]
#[non_exhaustive]
pub enum NetStackSendError {
    /// No route to destination
    NoRoute,
    /// "Any" port missing key
    AnyPortMissingKey,
    /// Wrong port kind
    WrongPortKind,
    /// "Any" port not unique
    AnyPortNotUnique,
    /// "All" port missing key
    AllPortMissingKey,
    /// Would deadlock
    WouldDeadlock,
    /// The socket did not take the frame
    SocketSend(SocketSendError),
    /// The profile did not take the frame
    InterfaceSend(InterfaceSendError),
}

impl NetStackSendError {
    /// How the error is reported to the sender of a frame.
    pub open spec fn error(self) -> ProtocolError {
        match self {
            NetStackSendError::NoRoute => ProtocolError::NsseNoRoute,
            NetStackSendError::AnyPortMissingKey => ProtocolError::NsseAnyPortMissingKey,
            NetStackSendError::WrongPortKind => ProtocolError::NsseWrongPortKind,
            NetStackSendError::AnyPortNotUnique => ProtocolError::NsseAnyPortNotUnique,
            NetStackSendError::AllPortMissingKey => ProtocolError::NsseAllPortMissingKey,
            NetStackSendError::WouldDeadlock => ProtocolError::NsseWouldDeadlock,
            NetStackSendError::SocketSend(e) => e.error(),
            NetStackSendError::InterfaceSend(e) => e.error(),
        }
    }

    /// How the error is reported to the sender of a frame.
    pub fn to_error(&self) -> (r: ProtocolError)
        ensures
            r == self.error(),
    {
        match self {
            NetStackSendError::NoRoute => ProtocolError::NsseNoRoute,
            NetStackSendError::AnyPortMissingKey => ProtocolError::NsseAnyPortMissingKey,
            NetStackSendError::WrongPortKind => ProtocolError::NsseWrongPortKind,
            NetStackSendError::AnyPortNotUnique => ProtocolError::NsseAnyPortNotUnique,
            NetStackSendError::AllPortMissingKey => ProtocolError::NsseAllPortMissingKey,
            NetStackSendError::WouldDeadlock => ProtocolError::NsseWouldDeadlock,
            NetStackSendError::SocketSend(e) => e.to_error(),
            NetStackSendError::InterfaceSend(e) => e.to_error(),
        }
    }
}

/// The stack of one node: its profile and its sockets.
pub struct NetStack<P: Profile> {
    pub profile: P,
    pub sockets: Vec<Socket>,
}

// ---------------------------------------------------------------------------
// Which socket
// ---------------------------------------------------------------------------
/// Whether a socket's name is the one that is asked for, if one is.
pub open spec fn name_matches(wanted: Option<NameHash>, name: Option<NameHash>) -> bool {
    wanted matches Some(w) ==> name == Some(w)
}

/// Whether a socket is one of those that an appendix asks for.
pub open spec fn asked_for(s: SocketHeader, hdr: Header, apdx: AnyAllAppendix) -> bool {
    s.attrs.kind == hdr.kind && s.key.0@ == apdx.key.0@ && name_matches(apdx.nash, s.nash)
}

/// Whether a socket can be found through the "any" port.
pub open spec fn any_match(s: SocketHeader, hdr: Header, apdx: AnyAllAppendix) -> bool {
    s.port != 255 && s.attrs.discoverable && asked_for(s, hdr, apdx)
}

/// Whether a socket listens to a broadcast.
pub open spec fn all_match(s: SocketHeader, hdr: Header, apdx: AnyAllAppendix) -> bool {
    s.port == 255 && asked_for(s, hdr, apdx)
}

/// Whether `i` is the first socket on a port.
pub open spec fn first_on_port(sockets: Seq<Socket>, port: u8, i: int) -> bool {
    &&& 0 <= i < sockets.len()
    &&& sockets[i].header().port == port
    &&& forall|j: int| 0 <= j < i ==> (#[trigger] sockets[j]).header().port != port
}

/// Whether `i` is the only socket that the "any" port leads to.
pub open spec fn only_any(sockets: Seq<Socket>, hdr: Header, apdx: AnyAllAppendix, i: int) -> bool {
    &&& 0 <= i < sockets.len()
    &&& any_match(sockets[i].header(), hdr, apdx)
    &&& forall|j: int|
        0 <= j < sockets.len() && j != i ==> !any_match(
            (#[trigger] sockets[j]).header(),
            hdr,
            apdx,
        )
}

/// Whether the search for the socket that a message to one destination is for
/// ends with `r`.
///
/// - A port that is not 0 is looked for as it is; the socket there has to be of
///   the message's kind.
/// - Port 0 leads to the one discoverable socket with the key of the appendix.
pub open spec fn socket_found(
    sockets: Seq<Socket>,
    hdr: Header,
    r: Result<usize, NetStackSendError>,
) -> bool {
    if hdr.dst.port_id != 0 {
        match r {
            Ok(i) => first_on_port(sockets, hdr.dst.port_id, i as int)
                && sockets[i as int].header().attrs.kind == hdr.kind,
            Err(NetStackSendError::NoRoute) => forall|j: int|
                0 <= j < sockets.len() ==> (#[trigger] sockets[j]).header().port
                    != hdr.dst.port_id,
            Err(NetStackSendError::WrongPortKind) => exists|i: int| #[trigger]
                first_on_port(sockets, hdr.dst.port_id, i) && sockets[i].header().attrs.kind
                    != hdr.kind,
            _ => false,
        }
    } else {
        match hdr.any_all {
            None => r == Err::<usize, _>(NetStackSendError::AnyPortMissingKey),
            Some(apdx) => match r {
                Ok(i) => only_any(sockets, hdr, apdx, i as int),
                Err(NetStackSendError::NoRoute) => forall|j: int|
                    0 <= j < sockets.len() ==> !any_match(
                        (#[trigger] sockets[j]).header(),
                        hdr,
                        apdx,
                    ),
                Err(NetStackSendError::AnyPortNotUnique) => exists|i: int, j: int|
                    0 <= i < j < sockets.len() && any_match(
                        (#[trigger] sockets[i]).header(),
                        hdr,
                        apdx,
                    ) && any_match((#[trigger] sockets[j]).header(), hdr, apdx),
                _ => false,
            },
        }
    }
}

/// Whether any socket listens to a broadcast.
pub open spec fn has_audience(sockets: Seq<Socket>, hdr: Header, apdx: AnyAllAppendix) -> bool {
    exists|i: int| 0 <= i < sockets.len() && all_match((#[trigger] sockets[i]).header(), hdr, apdx)
}

// ---------------------------------------------------------------------------
// What sending does
// ---------------------------------------------------------------------------
/// A frame was offered to the one socket at `i`.
pub open spec fn offered_to_one(
    before: Seq<Socket>,
    after: Seq<Socket>,
    i: int,
    hdr: Header,
    what: Payload,
    taken: bool,
) -> bool {
    &&& after == before.update(i, after[i])
    &&& Socket::offered(before[i], after[i], hdr, what, taken)
}

/// A broadcast was offered to a socket if it listens to it, and not if not.
pub open spec fn offered_if_listening(
    before: Socket,
    after: Socket,
    hdr: Header,
    apdx: AnyAllAppendix,
    what: Payload,
) -> bool {
    if all_match(before.header(), hdr, apdx) {
        Socket::offered(before, after, hdr, what, true) || Socket::offered(
            before,
            after,
            hdr,
            what,
            false,
        )
    } else {
        after == before
    }
}

/// A broadcast was offered to every one of the first `k` sockets that listens
/// to it, and to no other.
pub open spec fn offered_to_all(
    before: Seq<Socket>,
    after: Seq<Socket>,
    hdr: Header,
    apdx: AnyAllAppendix,
    what: Payload,
    k: nat,
) -> bool {
    &&& after.len() == before.len()
    &&& forall|i: int|
        0 <= i < k ==> offered_if_listening(before[i], #[trigger] after[i], hdr, apdx, what)
}

/// Delivery of a frame for one destination to the sockets of this node.
pub open spec fn delivered(
    before: Seq<Socket>,
    after: Seq<Socket>,
    hdr: Header,
    what: Payload,
    r: Result<(), NetStackSendError>,
) -> bool {
    exists|found: Result<usize, NetStackSendError>|
        {
            &&& #[trigger] socket_found(before, hdr, found)
            &&& match found {
                Err(e) => r == Err::<(), _>(e) && after == before,
                Ok(i) => {
                    &&& offered_to_one(before, after, i as int, hdr, what, r is Ok)
                    &&& r matches Err(e) ==> e == NetStackSendError::SocketSend(
                        SocketSendError::NoSpace,
                    )
                },
            }
        }
}

/// Delivery of a protocol error to the socket on its port. Whether the socket
/// has room for it makes no difference to the sender.
pub open spec fn error_delivered(
    before: Seq<Socket>,
    after: Seq<Socket>,
    hdr: Header,
    err: ProtocolError,
    r: Result<(), NetStackSendError>,
) -> bool {
    if exists|i: int| first_on_port(before, hdr.dst.port_id, i) {
        &&& r == Ok::<(), NetStackSendError>(())
        &&& exists|i: int, taken: bool|
            {
                &&& first_on_port(before, hdr.dst.port_id, i)
                &&& #[trigger] offered_to_one(before, after, i, hdr, Payload::Error(err), taken)
            }
    } else {
        r == Err::<(), _>(NetStackSendError::NoRoute) && after == before
    }
}

/// What becomes of a frame for one destination that was offered to the profile.
///
/// - The profile took it: that is a success, and the sockets never see it.
/// - The profile says that it is for this node: it is for the sockets.
/// - Any other error is the result.
pub enum Next {
    Done(Result<(), NetStackSendError>),
    Local,
}

/// What becomes of a frame for one destination that was offered to the profile.
pub open spec fn after_profile(r: Result<(), InterfaceSendError>) -> Next {
    match r {
        Ok(_) => Next::Done(Ok(())),
        Err(InterfaceSendError::DestinationLocal) => Next::Local,
        Err(e) => Next::Done(Err(NetStackSendError::InterfaceSend(e))),
    }
}

/// Whether what the profile says of a broadcast is no failure: it was sent, or
/// there was nobody to send it to.
pub open spec fn broadcast_fine(r: Result<(), InterfaceSendError>) -> bool {
    match r {
        Ok(_) => true,
        Err(e) => e == InterfaceSendError::NoRouteToDest || e == InterfaceSendError::RoutingLoop,
    }
}

/// The result of a broadcast.
pub open spec fn broadcast_result(audience: bool, r: Result<(), InterfaceSendError>) -> Result<
    (),
    NetStackSendError,
> {
    if audience || broadcast_fine(r) {
        Ok(())
    } else {
        Err(NetStackSendError::NoRoute)
    }
}

/// One step of the profile, from a good state to a good one.
pub open spec fn profile_step<P: Profile>(
    before: P,
    after: P,
    step: ProfileStep<P::InterfaceIdent>,
) -> bool {
    P::step(before, after, step) && after.wf()
}

/// Sending a message: one that originates here has no source.
pub open spec fn message_sent<P: Profile>(
    before: NetStack<P>,
    after: NetStack<P>,
    hdr: Header,
    what: Payload,
    source: Option<P::InterfaceIdent>,
    r: Result<(), NetStackSendError>,
) -> bool {
    if hdr.kind == FrameKind::protocol_error() {
        // Errors belong on the other path.
        r == Err::<(), _>(NetStackSendError::NoRoute) && after == before
    } else if hdr.dst.port_id == 255 {
        match hdr.any_all {
            None => r == Err::<(), _>(NetStackSendError::AllPortMissingKey) && after == before,
            Some(apdx) => exists|pr: Result<(), InterfaceSendError>|
                {
                    &&& offered_to_all(
                        before.sockets@,
                        after.sockets@,
                        hdr,
                        apdx,
                        what,
                        before.sockets@.len(),
                    )
                    &&& #[trigger] profile_step(
                        before.profile,
                        after.profile,
                        ProfileStep::Sent { hdr, what, source, r: pr },
                    )
                    &&& r == broadcast_result(has_audience(before.sockets@, hdr, apdx), pr)
                },
        }
    } else if hdr.dst.network_id == 0 && hdr.dst.node_id == 0 {
        // Definitely for this node: the profile never sees it.
        delivered(before.sockets@, after.sockets@, hdr, what, r) && after.profile == before.profile
    } else {
        exists|pr: Result<(), InterfaceSendError>|
            {
                &&& #[trigger] profile_step(
                    before.profile,
                    after.profile,
                    ProfileStep::Sent { hdr, what, source, r: pr },
                )
                &&& match after_profile(pr) {
                    Next::Done(done) => r == done && after.sockets@ == before.sockets@,
                    Next::Local => delivered(before.sockets@, after.sockets@, hdr, what, r),
                }
            }
    }
}

/// Sending a protocol error. Nobody in particular can be told of an error.
pub open spec fn error_sent<P: Profile>(
    before: NetStack<P>,
    after: NetStack<P>,
    hdr: Header,
    err: ProtocolError,
    source: Option<P::InterfaceIdent>,
    r: Result<(), NetStackSendError>,
) -> bool {
    if hdr.dst.port_id == 0 || hdr.dst.port_id == 255 {
        r == Err::<(), _>(NetStackSendError::NoRoute) && after == before
    } else if hdr.dst.network_id == 0 && hdr.dst.node_id == 0 {
        error_delivered(before.sockets@, after.sockets@, hdr, err, r) && after.profile
            == before.profile
    } else {
        exists|pr: Result<(), InterfaceSendError>|
            {
                &&& #[trigger] profile_step(
                    before.profile,
                    after.profile,
                    ProfileStep::Sent { hdr, what: Payload::Error(err), source, r: pr },
                )
                &&& match after_profile(pr) {
                    Next::Done(done) => r == done && after.sockets@ == before.sockets@,
                    Next::Local => error_delivered(
                        before.sockets@,
                        after.sockets@,
                        hdr,
                        err,
                        r,
                    ),
                }
            }
    }
}

/// What is to be put to a socket.
#[derive(Clone, Copy)]
enum Given<'a> {
    Message(&'a [u8]),
    Raw(&'a [u8]),
}

impl<'a> Given<'a> {
    spec fn payload(self) -> Payload {
        match self {
            Given::Message(body) => Payload::Message(body@),
            Given::Raw(body) => Payload::Raw(body@),
        }
    }
}

/// Offers a message to a socket.
fn offer(socket: &mut Socket, hdr: &Header, given: Given) -> (r: Result<(), SocketSendError>)
    ensures
        Socket::offered(*old(socket), *final(socket), *hdr, given.payload(), r is Ok),
        r matches Err(e) ==> e == SocketSendError::NoSpace,
{
    match given {
        Given::Message(body) => socket.recv_bor(*hdr, body),
        Given::Raw(body) => socket.recv_raw(body, *hdr),
    }
}

/// Whether a socket is one of those that an appendix asks for.
fn is_asked_for(s: &SocketHeader, hdr: &Header, apdx: &AnyAllAppendix) -> (r: bool)
    ensures
        r == asked_for(*s, *hdr, *apdx),
{
    let name_fits = match (apdx.nash, s.nash) {
        (None, _) => true,
        (Some(wanted), Some(name)) => wanted == name,
        (Some(_), None) => false,
    };
    s.attrs.kind == hdr.kind && s.key.same(&apdx.key) && name_fits
}

impl<P: Profile> NetStack<P> {
    /// The invariant of the profile.
    pub open spec fn wf(&self) -> bool {
        self.profile.wf()
    }

    /// A stack without sockets.
    pub fn new_with_profile(profile: P) -> (r: Self)
        ensures
            r.profile == profile,
            r.sockets@ == Seq::<Socket>::empty(),
    {
        NetStack { profile, sockets: Vec::new() }
    }

    /// The position of the first socket on a port.
    fn find_port(&self, port: u8) -> (r: Option<usize>)
        ensures
            match r {
                Some(i) => first_on_port(self.sockets@, port, i as int),
                None => forall|j: int|
                    0 <= j < self.sockets@.len() ==> (#[trigger] self.sockets@[j]).header().port
                        != port,
            },
    {
        let mut i: usize = 0;
        while i < self.sockets.len()
            invariant
                i <= self.sockets.len(),
                forall|j: int| 0 <= j < i ==> (#[trigger] self.sockets@[j]).header().port != port,
            decreases self.sockets.len() - i,
        {
            if self.sockets[i].hdr().port == port {
                return Some(i);
            }
            i = i + 1;
        }
        None
    }

    /// Whether a port is free.
    pub open spec fn port_free(&self, port: u8) -> bool {
        forall|j: int|
            0 <= j < self.sockets@.len() ==> (#[trigger] self.sockets@[j]).header().port != port
    }

    /// Adds a socket on the lowest free port. Ports 0 and 255 are reserved; if
    /// all others are taken, the socket is handed back.
    pub fn attach_socket(&mut self, socket: Socket) -> (r: Result<u8, Socket>)
        ensures
            final(self).profile == old(self).profile,
            match r {
                Ok(port) => {
                    &&& 1 <= port <= 254
                    &&& old(self).port_free(port)
                    &&& forall|other: u8|
                        1 <= other < port ==> !#[trigger] old(self).port_free(other)
                    &&& final(self).sockets@.len() == old(self).sockets@.len() + 1
                    &&& final(self).sockets@.drop_last() == old(self).sockets@
                    &&& attached(socket, final(self).sockets@.last(), port)
                },
                Err(back) => {
                    &&& back == socket
                    &&& final(self).sockets@ == old(self).sockets@
                    &&& forall|other: u8|
                        1 <= other <= 254 ==> !#[trigger] old(self).port_free(other)
                },
            },
    {
        let mut port: u8 = 1;
        while port < 255
            invariant
                1 <= port <= 255,
                *self == *old(self),
                forall|other: u8| 1 <= other < port ==> !#[trigger] self.port_free(other),
            decreases 255 - port,
        {
            if self.find_port(port).is_none() {
                let ghost before = self.sockets@;
                let mut socket = socket;
                socket.set_port(port);
                self.sockets.push(socket);
                assert(self.sockets@.drop_last() =~= before);
                return Ok(port);
            }
            port = port + 1;
        }
        Err(socket)
    }

    /// Adds a socket that listens to broadcasts.
    pub fn attach_broadcast_socket(&mut self, socket: Socket)
        ensures
            final(self).profile == old(self).profile,
            final(self).sockets@.len() == old(self).sockets@.len() + 1,
            final(self).sockets@.drop_last() == old(self).sockets@,
            attached(socket, final(self).sockets@.last(), 255),
    {
        let ghost before = self.sockets@;
        let mut socket = socket;
        socket.set_port(255);
        self.sockets.push(socket);
        assert(self.sockets@.drop_last() =~= before);
    }

    /// Takes the socket at a position out of the stack.
    pub fn detach_socket(&mut self, index: usize) -> (r: Option<Socket>)
        ensures
            final(self).profile == old(self).profile,
            if index < old(self).sockets@.len() {
                &&& r == Some(old(self).sockets@[index as int])
                &&& final(self).sockets@ == old(self).sockets@.remove(index as int)
            } else {
                r is None && final(self).sockets@ == old(self).sockets@
            },
    {
        if index < self.sockets.len() {
            Some(self.sockets.remove(index))
        } else {
            None
        }
    }

    /// Finds the socket that a message to one destination is for.
    fn find_socket(&self, hdr: &Header) -> (r: Result<usize, NetStackSendError>)
        ensures
            socket_found(self.sockets@, *hdr, r),
            r matches Ok(i) ==> i < self.sockets@.len(),
    {
        if hdr.dst.port_id != 0 {
            return match self.find_port(hdr.dst.port_id) {
                None => Err(NetStackSendError::NoRoute),
                Some(i) => {
                    if self.sockets[i].hdr().attrs.kind != hdr.kind {
                        Err(NetStackSendError::WrongPortKind)
                    } else {
                        Ok(i)
                    }
                },
            };
        }
        let apdx = match &hdr.any_all {
            Some(apdx) => apdx,
            None => {
                return Err(NetStackSendError::AnyPortMissingKey);
            },
        };
        let mut found: Option<usize> = None;
        let mut i: usize = 0;
        while i < self.sockets.len()
            invariant
                i <= self.sockets.len(),
                match found {
                    Some(k) => k < i && any_match(self.sockets@[k as int].header(), *hdr, *apdx)
                        && forall|j: int|
                        0 <= j < i && j != k ==> !any_match(
                            (#[trigger] self.sockets@[j]).header(),
                            *hdr,
                            *apdx,
                        ),
                    None => forall|j: int|
                        0 <= j < i ==> !any_match(
                            (#[trigger] self.sockets@[j]).header(),
                            *hdr,
                            *apdx,
                        ),
                },
                hdr.dst.port_id == 0,
                hdr.any_all == Some(*apdx),
            decreases self.sockets.len() - i,
        {
            let s = self.sockets[i].hdr();
            if s.port != 255 && s.attrs.discoverable && is_asked_for(&s, hdr, apdx) {
                if let Some(k) = found {
                    assert(any_match(self.sockets@[k as int].header(), *hdr, *apdx));
                    return Err(NetStackSendError::AnyPortNotUnique);
                }
                found = Some(i);
            }
            i = i + 1;
        }
        match found {
            Some(k) => Ok(k),
            None => Err(NetStackSendError::NoRoute),
        }
    }

    /// Delivers a message for one destination to the sockets.
    fn deliver(&mut self, hdr: &Header, given: Given) -> (r: Result<(), NetStackSendError>)
        ensures
            final(self).profile == old(self).profile,
            delivered(old(self).sockets@, final(self).sockets@, *hdr, given.payload(), r),
    {
        let ghost before = self.sockets@;
        let found = self.find_socket(hdr);
        assert(socket_found(before, *hdr, found));
        match found {
            Err(e) => Err(e),
            Ok(i) => {
                let r = match offer(&mut self.sockets[i], hdr, given) {
                    Ok(()) => Ok(()),
                    Err(e) => Err(NetStackSendError::SocketSend(e)),
                };
                assert(self.sockets@ =~= before.update(i as int, self.sockets@[i as int]));
                r
            },
        }
    }

    /// Offers a broadcast to every socket that listens to it, and says whether
    /// there was any.
    fn deliver_all(&mut self, hdr: &Header, apdx: &AnyAllAppendix, given: Given) -> (audience: bool)
        ensures
            final(self).profile == old(self).profile,
            offered_to_all(
                old(self).sockets@,
                final(self).sockets@,
                *hdr,
                *apdx,
                given.payload(),
                old(self).sockets@.len(),
            ),
            audience == has_audience(old(self).sockets@, *hdr, *apdx),
    {
        let ghost before = self.sockets@;
        let ghost profile = self.profile;
        let mut audience: bool = false;
        let mut i: usize = 0;
        while i < self.sockets.len()
            invariant
                i <= self.sockets.len(),
                self.profile == profile,
                offered_to_all(before, self.sockets@, *hdr, *apdx, given.payload(), i as nat),
                forall|j: int| i <= j < before.len() ==> #[trigger] self.sockets@[j] == before[j],
                audience == exists|j: int|
                    0 <= j < i && all_match((#[trigger] before[j]).header(), *hdr, *apdx),
            decreases self.sockets.len() - i,
        {
            let ghost now = self.sockets@;
            let s = self.sockets[i].hdr();
            if s.port == 255 && is_asked_for(&s, hdr, apdx) {
                assert(all_match(before[i as int].header(), *hdr, *apdx));
                audience = true;
                let r = offer(&mut self.sockets[i], hdr, given);
                assert(Socket::offered(
                    before[i as int],
                    self.sockets@[i as int],
                    *hdr,
                    given.payload(),
                    r is Ok,
                ));
            }
            proof {
                assert forall|j: int| 0 <= j < i + 1 implies offered_if_listening(
                    before[j],
                    #[trigger] self.sockets@[j],
                    *hdr,
                    *apdx,
                    given.payload(),
                ) by {
                    if j < i {
                        assert(self.sockets@[j] == now[j]);
                    }
                }
            }
            i = i + 1;
        }
        audience
    }

    /// Offers a message that originates here to all sockets of this node that
    /// listen to it, and to nobody else.
    pub fn broadcast_local(&mut self, hdr: &Header, body: &[u8]) -> (r: Result<
        (),
        NetStackSendError,
    >)
        ensures
            final(self).profile == old(self).profile,
            match hdr.any_all {
                None => {
                    &&& r == Err::<(), _>(NetStackSendError::AllPortMissingKey)
                    &&& final(self).sockets@ == old(self).sockets@
                },
                Some(apdx) => {
                    &&& offered_to_all(
                        old(self).sockets@,
                        final(self).sockets@,
                        *hdr,
                        apdx,
                        Payload::Message(body@),
                        old(self).sockets@.len(),
                    )
                    &&& r == (if has_audience(old(self).sockets@, *hdr, apdx) {
                        Ok::<(), NetStackSendError>(())
                    } else {
                        Err(NetStackSendError::NoRoute)
                    })
                },
            },
    {
        let apdx = match &hdr.any_all {
            Some(apdx) => *apdx,
            None => {
                return Err(NetStackSendError::AllPortMissingKey);
            },
        };
        if self.deliver_all(hdr, &apdx, Given::Message(body)) {
            Ok(())
        } else {
            Err(NetStackSendError::NoRoute)
        }
    }

    /// Offers a message to the profile.
    fn offer_to_profile(
        &mut self,
        hdr: &Header,
        given: Given,
        source: Option<P::InterfaceIdent>,
    ) -> (r: Result<(), InterfaceSendError>)
        requires
            old(self).wf(),
            given is Message <==> source is None,
        ensures
            final(self).wf(),
            final(self).sockets == old(self).sockets,
            profile_step(
                old(self).profile,
                final(self).profile,
                (ProfileStep::Sent { hdr: *hdr, what: given.payload(), source, r }),
            ),
    {
        match (given, source) {
            (Given::Raw(body), Some(ident)) => self.profile.send_raw(hdr, body, ident),
            (Given::Raw(body), None) => self.profile.send(hdr, body),
            (Given::Message(body), _) => self.profile.send(hdr, body),
        }
    }

    /// Sends a message.
    fn send_message(
        &mut self,
        hdr: &Header,
        given: Given,
        source: Option<P::InterfaceIdent>,
    ) -> (r: Result<(), NetStackSendError>)
        requires
            old(self).wf(),
            given is Message <==> source is None,
        ensures
            final(self).wf(),
            message_sent(*old(self), *final(self), *hdr, given.payload(), source, r),
    {
        let ghost before = *self;
        if hdr.kind == FrameKind::protocol_error() {
            return Err(NetStackSendError::NoRoute);
        }
        if hdr.dst.port_id == 255 {
            let apdx = match &hdr.any_all {
                Some(apdx) => *apdx,
                None => {
                    return Err(NetStackSendError::AllPortMissingKey);
                },
            };
            let audience = self.deliver_all(hdr, &apdx, given);
            let pr = self.offer_to_profile(hdr, given, source);
            let fine = match pr {
                Ok(()) => true,
                Err(InterfaceSendError::NoRouteToDest) => true,
                Err(InterfaceSendError::RoutingLoop) => true,
                Err(_) => false,
            };
            assert(profile_step(
                before.profile,
                self.profile,
                ProfileStep::Sent { hdr: *hdr, what: given.payload(), source, r: pr },
            ));
            return if audience || fine {
                Ok(())
            } else {
                Err(NetStackSendError::NoRoute)
            };
        }
        if hdr.dst.net_node_any() {
            return self.deliver(hdr, given);
        }
        let pr = self.offer_to_profile(hdr, given, source);
        assert(profile_step(
            before.profile,
            self.profile,
            ProfileStep::Sent { hdr: *hdr, what: given.payload(), source, r: pr },
        ));
        match pr {
            Ok(()) => Ok(()),
            Err(InterfaceSendError::DestinationLocal) => self.deliver(hdr, given),
            Err(e) => Err(NetStackSendError::InterfaceSend(e)),
        }
    }

    /// Sends a message that originates here, whose body has been serialized.
    pub fn send_ty(&mut self, hdr: &Header, body: &[u8]) -> (r: Result<(), NetStackSendError>)
        requires
            old(self).wf(),
        ensures
            final(self).wf(),
            message_sent(
                *old(self),
                *final(self),
                *hdr,
                Payload::Message(body@),
                None::<P::InterfaceIdent>,
                r,
            ),
    {
        self.send_message(hdr, Given::Message(body), None)
    }

    /// Sends on a message that came in over the interface `source`.
    pub fn send_raw(&mut self, hdr: &Header, body: &[u8], source: P::InterfaceIdent) -> (r: Result<
        (),
        NetStackSendError,
    >)
        requires
            old(self).wf(),
        ensures
            final(self).wf(),
            message_sent(*old(self), *final(self), *hdr, Payload::Raw(body@), Some(source), r),
    {
        self.send_message(hdr, Given::Raw(body), Some(source))
    }

    /// Delivers a protocol error to the socket on its port.
    fn deliver_err(&mut self, hdr: &Header, err: ProtocolError) -> (r: Result<
        (),
        NetStackSendError,
    >)
        ensures
            final(self).profile == old(self).profile,
            error_delivered(old(self).sockets@, final(self).sockets@, *hdr, err, r),
    {
        let ghost before = self.sockets@;
        match self.find_port(hdr.dst.port_id) {
            None => {
                assert forall|i: int| !first_on_port(before, hdr.dst.port_id, i) by {}
                Err(NetStackSendError::NoRoute)
            },
            Some(i) => {
                let taken = self.sockets[i].recv_err(*hdr, err);
                proof {
                    assert(self.sockets@ =~= before.update(i as int, self.sockets@[i as int]));
                    assert(offered_to_one(
                        before,
                        self.sockets@,
                        i as int,
                        *hdr,
                        Payload::Error(err),
                        taken,
                    ));
                }
                Ok(())
            },
        }
    }

    /// Sends a protocol error, which may have come in over an interface.
    pub fn send_err(
        &mut self,
        hdr: &Header,
        err: ProtocolError,
        source: Option<P::InterfaceIdent>,
    ) -> (r: Result<(), NetStackSendError>)
        requires
            old(self).wf(),
        ensures
            final(self).wf(),
            error_sent(*old(self), *final(self), *hdr, err, source, r),
    {
        let ghost before = *self;
        if hdr.dst.port_id == 0 || hdr.dst.port_id == 255 {
            return Err(NetStackSendError::NoRoute);
        }
        if hdr.dst.net_node_any() {
            return self.deliver_err(hdr, err);
        }
        let pr = self.profile.send_err(hdr, err, source);
        assert(profile_step(
            before.profile,
            self.profile,
            ProfileStep::Sent { hdr: *hdr, what: Payload::Error(err), source, r: pr },
        ));
        match pr {
            Ok(()) => Ok(()),
            Err(InterfaceSendError::DestinationLocal) => self.deliver_err(hdr, err),
            Err(e) => Err(NetStackSendError::InterfaceSend(e)),
        }
    }
}

/// `after` is the socket `before`, put on a port.
pub open spec fn attached(before: Socket, after: Socket, port: u8) -> bool {
    &&& after.header() == (SocketHeader { port, ..before.header() })
    &&& after.spec_mtu() == before.spec_mtu()
    &&& after.capacity() == before.capacity()
    &&& after.frames() == before.frames()
    &&& after.marks() == before.marks()
    &&& after.is_reading() == before.is_reading()
    &&& after.stored() == before.stored()
}

// ---------------------------------------------------------------------------
// What can be relied on
// ---------------------------------------------------------------------------
/// A message for `0:0` is never offered to the profile.
pub proof fn local_messages_stay_local<P: Profile>(
    before: NetStack<P>,
    after: NetStack<P>,
    hdr: Header,
    what: Payload,
    source: Option<P::InterfaceIdent>,
    r: Result<(), NetStackSendError>,
)
    requires
        message_sent(before, after, hdr, what, source, r),
        hdr.dst.network_id == 0,
        hdr.dst.node_id == 0,
        hdr.dst.port_id != 255,
    ensures
        after.profile == before.profile,
{
}

/// A message for one destination is delivered at most once: if it was, one socket
/// has one more frame, and if it was not, no socket has; nothing is kept for
/// later.
pub proof fn delivered_at_most_once(
    before: Seq<Socket>,
    after: Seq<Socket>,
    hdr: Header,
    what: Payload,
    r: Result<(), NetStackSendError>,
)
    requires
        delivered(before, after, hdr, what, r),
    ensures
        after.len() == before.len(),
        match r {
            Ok(_) => exists|i: int| #[trigger] one_more_frame(before, after, i),
            Err(_) => forall|i: int|
                0 <= i < before.len() ==> (#[trigger] after[i]).frames() == before[i].frames(),
        },
{
    let found = choose|found: Result<usize, NetStackSendError>|
        {
            &&& #[trigger] socket_found(before, hdr, found)
            &&& match found {
                Err(e) => r == Err::<(), _>(e) && after == before,
                Ok(i) => {
                    &&& offered_to_one(before, after, i as int, hdr, what, r is Ok)
                    &&& r matches Err(e) ==> e == NetStackSendError::SocketSend(
                        SocketSendError::NoSpace,
                    )
                },
            }
        };
    if let Ok(i) = found {
        if r is Ok {
            assert(after[i as int].frames().drop_last() =~= before[i as int].frames());
            assert(one_more_frame(before, after, i as int));
        }
    }
}

/// The socket at `i` has one more frame, and the others are as before.
pub open spec fn one_more_frame(before: Seq<Socket>, after: Seq<Socket>, i: int) -> bool {
    &&& 0 <= i < before.len()
    &&& after[i].frames().len() == before[i].frames().len() + 1
    &&& after[i].frames().drop_last() == before[i].frames()
    &&& after == before.update(i, after[i])
}

/// Every socket is well formed.
pub open spec fn sockets_wf(sockets: Seq<Socket>) -> bool {
    forall|i: int| 0 <= i < sockets.len() ==> (#[trigger] sockets[i]).wf()
}

/// Offering a frame to one socket keeps all of them well formed.
proof fn lemma_offer_keeps_sockets(
    before: Seq<Socket>,
    after: Seq<Socket>,
    i: int,
    hdr: Header,
    what: Payload,
    taken: bool,
)
    requires
        sockets_wf(before),
        0 <= i < before.len(),
        offered_to_one(before, after, i, hdr, what, taken),
    ensures
        sockets_wf(after),
{
    borrow::offer_keeps_wf(before[i], after[i], hdr, what, taken);
    assert forall|j: int| 0 <= j < after.len() implies (#[trigger] after[j]).wf() by {
        assert(before[j].wf());
    }
}

/// Delivery to one socket keeps all of them well formed.
proof fn lemma_delivery_keeps_sockets(
    before: Seq<Socket>,
    after: Seq<Socket>,
    hdr: Header,
    what: Payload,
    r: Result<(), NetStackSendError>,
)
    requires
        sockets_wf(before),
        delivered(before, after, hdr, what, r),
    ensures
        sockets_wf(after),
{
    let found = choose|found: Result<usize, NetStackSendError>|
        {
            &&& #[trigger] socket_found(before, hdr, found)
            &&& match found {
                Err(e) => after == before,
                Ok(i) => offered_to_one(before, after, i as int, hdr, what, r is Ok),
            }
        };
    if let Ok(i) = found {
        lemma_offer_keeps_sockets(before, after, i as int, hdr, what, r is Ok);
    }
}

/// Whatever is sent, the sockets stay well formed, so that what they hold can be
/// received.
pub proof fn sending_keeps_sockets_wf<P: Profile>(
    before: NetStack<P>,
    after: NetStack<P>,
    hdr: Header,
    what: Payload,
    source: Option<P::InterfaceIdent>,
    r: Result<(), NetStackSendError>,
)
    requires
        sockets_wf(before.sockets@),
        match what {
            Payload::Error(err) => error_sent(before, after, hdr, err, source, r),
            _ => message_sent(before, after, hdr, what, source, r),
        },
    ensures
        sockets_wf(after.sockets@),
{
    let (b, a) = (before.sockets@, after.sockets@);
    if a != b {
        match what {
            Payload::Error(err) => {
                let (i, taken) = choose|i: int, taken: bool|
                    {
                        &&& first_on_port(b, hdr.dst.port_id, i)
                        &&& #[trigger] offered_to_one(b, a, i, hdr, what, taken)
                    };
                lemma_offer_keeps_sockets(b, a, i, hdr, what, taken);
            },
            _ => {
                if hdr.dst.port_id != 255 {
                    lemma_delivery_keeps_sockets(b, a, hdr, what, r);
                } else {
                    let apdx = hdr.any_all->0;
                    assert forall|i: int| 0 <= i < a.len() implies (#[trigger] a[i]).wf() by {
                        assert(b[i].wf());
                        assert(offered_if_listening(b[i], a[i], hdr, apdx, what));
                        if all_match(b[i].header(), hdr, apdx) {
                            let taken = Socket::offered(b[i], a[i], hdr, what, true);
                            borrow::offer_keeps_wf(b[i], a[i], hdr, what, taken);
                        }
                    }
                }
            },
        }
    }
}

/// A broadcast with an audience on this node succeeds, whatever the profile
/// says, and even if every queue is full.
pub proof fn broadcast_with_audience_succeeds<P: Profile>(
    before: NetStack<P>,
    after: NetStack<P>,
    hdr: Header,
    apdx: AnyAllAppendix,
    what: Payload,
    source: Option<P::InterfaceIdent>,
    r: Result<(), NetStackSendError>,
)
    requires
        message_sent(before, after, hdr, what, source, r),
        hdr.kind != FrameKind::protocol_error(),
        hdr.dst.port_id == 255,
        hdr.any_all == Some(apdx),
        has_audience(before.sockets@, hdr, apdx),
    ensures
        r == Ok::<(), NetStackSendError>(()),
{
}

/// A message for one destination reaches the sockets of this node only if it is
/// for `0:0`, or if the profile says that its destination is this node. What the
/// profile took, or refused for another reason, they never see.
pub proof fn sockets_see_what_is_local<P: Profile>(
    before: NetStack<P>,
    after: NetStack<P>,
    hdr: Header,
    what: Payload,
    source: Option<P::InterfaceIdent>,
    r: Result<(), NetStackSendError>,
)
    requires
        message_sent(before, after, hdr, what, source, r),
        hdr.dst.port_id != 255,
        !(hdr.dst.network_id == 0 && hdr.dst.node_id == 0),
        !profile_step(
            before.profile,
            after.profile,
            (ProfileStep::Sent {
                hdr,
                what,
                source,
                r: Err::<(), _>(InterfaceSendError::DestinationLocal),
            }),
        ),
    ensures
        after.sockets@ == before.sockets@,
{
}

/// A broadcast that nobody listens to is no error: if the profile took it, or
/// had nobody to send it to, it succeeds.
pub proof fn unheard_broadcast_is_no_error<P: Profile>(
    before: NetStack<P>,
    after: NetStack<P>,
    hdr: Header,
    what: Payload,
    source: Option<P::InterfaceIdent>,
    r: Result<(), NetStackSendError>,
)
    requires
        message_sent(before, after, hdr, what, source, r),
        hdr.kind != FrameKind::protocol_error(),
        hdr.dst.port_id == 255,
        hdr.any_all is Some,
        forall|pr: Result<(), InterfaceSendError>| #[trigger]
            profile_step(
                before.profile,
                after.profile,
                (ProfileStep::Sent { hdr, what, source, r: pr }),
            ) ==> broadcast_fine(pr),
    ensures
        r == Ok::<(), NetStackSendError>(()),
{
}

/// A broadcast that nobody here listens to, and that an interface which exists
/// failed to send, is an error.
pub proof fn failed_broadcast_is_reported<P: Profile>(
    before: NetStack<P>,
    after: NetStack<P>,
    hdr: Header,
    apdx: AnyAllAppendix,
    what: Payload,
    source: Option<P::InterfaceIdent>,
    r: Result<(), NetStackSendError>,
)
    requires
        message_sent(before, after, hdr, what, source, r),
        hdr.kind != FrameKind::protocol_error(),
        hdr.dst.port_id == 255,
        hdr.any_all == Some(apdx),
        !has_audience(before.sockets@, hdr, apdx),
        forall|pr: Result<(), InterfaceSendError>| #[trigger]
            profile_step(
                before.profile,
                after.profile,
                (ProfileStep::Sent { hdr, what, source, r: pr }),
            ) ==> !broadcast_fine(pr),
    ensures
        r == Err::<(), NetStackSendError>(NetStackSendError::NoRoute),
{
}

/// A protocol error is never a message: on that path it is refused, and nobody
/// is offered it.
pub proof fn error_kind_is_refused<P: Profile>(
    before: NetStack<P>,
    after: NetStack<P>,
    hdr: Header,
    what: Payload,
    source: Option<P::InterfaceIdent>,
    r: Result<(), NetStackSendError>,
)
    requires
        message_sent(before, after, hdr, what, source, r),
        hdr.kind == FrameKind::protocol_error(),
    ensures
        r == Err::<(), NetStackSendError>(NetStackSendError::NoRoute),
        after == before,
{
}

/// The traffic class is a hint: it does not decide which sockets a message is
/// for.
pub proof fn class_does_not_matter(
    sockets: Seq<Socket>,
    hdr: Header,
    class: crate::TrafficClass,
    apdx: AnyAllAppendix,
    found: Result<usize, NetStackSendError>,
)
    ensures
        socket_found(sockets, hdr, found) ==> socket_found(
            sockets,
            (Header { class, ..hdr }),
            found,
        ),
        has_audience(sockets, hdr, apdx) == has_audience(sockets, (Header { class, ..hdr }), apdx),
        forall|s: SocketHeader| #[trigger]
            all_match(s, hdr, apdx) == all_match(s, (Header { class, ..hdr }), apdx),
{
    let other = Header { class, ..hdr };
    assert forall|s: SocketHeader| #[trigger]
        all_match(s, hdr, apdx) == all_match(s, other, apdx) by {}
    if has_audience(sockets, hdr, apdx) {
        let i = choose|i: int|
            0 <= i < sockets.len() && all_match((#[trigger] sockets[i]).header(), hdr, apdx);
        assert(all_match(sockets[i].header(), other, apdx));
    }
}

} // verus!

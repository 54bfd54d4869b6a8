//! Frame processing for the router profile.

use vstd::prelude::*;
use crate::address::Address;
use crate::interface_manager;
use crate::interface_manager::edge_port::CENTRAL_NODE_ID;
use crate::interface_manager::{
    FrameProcessor, Ident, InterfaceSendError, InterfaceState, Profile, ProfileStep, SetStateError,
};
use crate::net_stack;
use crate::net_stack::{NetStack, NetStackSendError};
use crate::wire_frames;
use crate::{FrameKind, Header, ProtocolError, DEFAULT_TTL};

verus! {

/// Frame processor for the router profile.
///
/// Uses a pre-assigned `net_id` and handles Inactive to Active transition on the
/// first frame that the transport hands over, whether or not it can be decoded.
#[derive(Clone, Copy, Debug, PartialEq, Eq, Structural)]
pub struct RouterFrameProcessor {
    pub net_id: u16,
    pub activated: bool,
}

impl RouterFrameProcessor {
    /// Create a new processor with a pre-assigned net_id.
    pub fn new(net_id: u16) -> (r: Self)
        ensures
            r == (RouterFrameProcessor { net_id, activated: false }),
    {
        RouterFrameProcessor { net_id, activated: false }
    }
}

/// The header of a received frame with its source completed, unless the frame is
/// to be ignored: a source net of zero becomes the net of the segment, so that
/// it isn't mistaken for a local packet. A frame that claims to come from nobody,
/// or from the router itself, is ignored.
pub open spec fn with_segment_source(net_id: u16, hdr: Header) -> Option<Header> {
    if hdr.src.network_id != 0 {
        Some(hdr)
    } else if hdr.src.node_id == 0 || hdr.src.node_id == CENTRAL_NODE_ID {
        None
    } else {
        Some(Header { src: Address { network_id: net_id, ..hdr.src }, ..hdr })
    }
}

/// Whether the sender of a frame, whose source is complete, must have claimed
/// its node_id: every device on this very segment, except that a frame to the
/// "any" port may be the claim itself. A frame in transit comes from a segment
/// that this router does not arbitrate.
pub open spec fn needs_claim(net_id: u16, hdr: Header) -> bool {
    hdr.dst.port_id != 0 && hdr.src.network_id == net_id
}

/// The header with a link-local destination set to the segment.
pub open spec fn with_segment_destination(net_id: u16, hdr: Header) -> Header {
    if hdr.dst.network_id == 0 {
        Header { dst: Address { network_id: net_id, ..hdr.dst }, ..hdr }
    } else {
        hdr
    }
}

/// The header under which the sender of a frame is told that it was too big. The
/// reply carries the class of the frame; a sender on a reserved port cannot be
/// told.
pub open spec fn too_big_reply(hdr: Header) -> Option<Header> {
    if hdr.src.port_id == 0 || hdr.src.port_id == 255 {
        None
    } else {
        Some(
            Header {
                src: hdr.dst,
                dst: hdr.src,
                any_all: None,
                kind: FrameKind::protocol_error(),
                class: hdr.class,
                ttl: DEFAULT_TTL,
            },
        )
    }
}

/// What is done once a frame was passed on with the result `r`: a sender whose
/// frame was too big for an interface on the way is told the size that fits.
pub open spec fn answered<P: Profile>(
    before: NetStack<P>,
    after: NetStack<P>,
    hdr: Header,
    ident: P::InterfaceIdent,
    r: Result<(), NetStackSendError>,
) -> bool {
    match r {
        Err(NetStackSendError::InterfaceSend(InterfaceSendError::PacketTooBig { mtu })) => {
            match too_big_reply(hdr) {
                None => after == before,
                Some(reply) => exists|sent: Result<(), NetStackSendError>| #[trigger]
                    net_stack::error_sent(
                        before,
                        after,
                        reply,
                        ProtocolError::IsePacketTooBig { mtu },
                        Some(ident),
                        sent,
                    ),
            }
        },
        _ => after == before,
    }
}

/// A frame, addressed in full, was passed on and its sender answered.
pub open spec fn passed_on_and_answered<P: Profile>(
    before: NetStack<P>,
    after: NetStack<P>,
    hdr: Header,
    content: Result<Seq<u8>, ProtocolError>,
    ident: P::InterfaceIdent,
) -> bool {
    exists|mid: NetStack<P>, r: Result<(), NetStackSendError>|
        {
            &&& #[trigger] interface_manager::passed_on(before, mid, hdr, content, ident, r)
            &&& answered(mid, after, hdr, ident, r)
        }
}

/// The profile was asked, where that is needed, whether the sender may send.
pub open spec fn claim_answered<P: Profile>(
    before: P,
    after: P,
    net_id: u16,
    hdr: Header,
    may_send: bool,
) -> bool {
    if needs_claim(net_id, hdr) {
        net_stack::profile_step(
            before,
            after,
            ProfileStep::NodeClaimed { net_id, node_id: hdr.src.node_id, may_send },
        )
    } else {
        after == before && may_send
    }
}

/// What processing one frame that came in on segment `net_id` does.
pub open spec fn frame_processed<P: Profile>(
    net_id: u16,
    before: NetStack<P>,
    after: NetStack<P>,
    data: Seq<u8>,
    ident: P::InterfaceIdent,
) -> bool {
    match wire_frames::decode(data) {
        None => after == before,
        Some((hdr, content, _)) => match with_segment_source(net_id, hdr) {
            None => after == before,
            Some(h) => exists|mid: NetStack<P>, may_send: bool|
                {
                    &&& mid.sockets == before.sockets
                    &&& #[trigger] claim_answered(
                        before.profile,
                        mid.profile,
                        net_id,
                        h,
                        may_send,
                    )
                    &&& if may_send {
                        passed_on_and_answered(
                            mid,
                            after,
                            with_segment_destination(net_id, h),
                            content,
                            ident,
                        )
                    } else {
                        after == mid
                    }
                },
        },
    }
}

/// The header of a received frame with its source completed, see
/// [`with_segment_source`].
pub fn complete_source(net_id: u16, hdr: &Header) -> (r: Option<Header>)
    ensures
        r == with_segment_source(net_id, *hdr),
{
    let mut hdr = *hdr;
    if hdr.src.network_id == 0 {
        if hdr.src.node_id == 0 || hdr.src.node_id == CENTRAL_NODE_ID {
            return None;
        }
        // Accept any non-zero, non-central node_id (bus-style support)
        hdr.src.network_id = net_id;
    }
    Some(hdr)
}

/// The header under which the sender of a frame is told that it was too big,
/// see [`too_big_reply`].
pub fn packet_too_big_header(hdr: &Header) -> (r: Option<Header>)
    ensures
        r == too_big_reply(*hdr),
{
    if hdr.src.port_id == 0 || hdr.src.port_id == 255 {
        return None;
    }
    Some(
        Header {
            src: hdr.dst,
            dst: hdr.src,
            any_all: None,
            kind: FrameKind::protocol_error(),
            class: hdr.class,
            ttl: DEFAULT_TTL,
        },
    )
}

/// Process one received frame for a router.
pub fn process_frame<P: Profile>(
    net_id: u16,
    data: &[u8],
    stack: &mut NetStack<P>,
    ident: P::InterfaceIdent,
)
    requires
        old(stack).wf(),
    ensures
        final(stack).wf(),
        frame_processed(net_id, *old(stack), *final(stack), data@, ident),
{
    let ghost before = *stack;
    let frame = match wire_frames::de_frame(data) {
        Some(frame) => frame,
        None => {
            return ;
        },
    };
    // Rewrite zero src net_id so it isn't mistaken for a local packet
    let mut hdr = match complete_source(net_id, &frame.hdr) {
        Some(hdr) => hdr,
        None => {
            return ;
        },
    };
    let ghost sourced = hdr;
    // Bus address claim validation: a device on this segment must have claimed
    // its node_id before it may send.
    let mut may_send: bool = true;
    if hdr.dst.port_id != 0 && hdr.src.network_id == net_id {
        may_send = stack.profile.is_node_claimed(net_id, hdr.src.node_id);
    }
    let ghost mid = *stack;
    assert(claim_answered(before.profile, mid.profile, net_id, sourced, may_send));
    if !may_send {
        return ;
    }
    // Rewrite zero dst net_id to this interface's net_id (link-local addressing).
    // An edge that doesn't yet know its net_id sends dst=(0, CENTRAL_NODE_ID,
    // port) meaning "deliver to my directly connected router".

    if hdr.dst.network_id == 0 {
        hdr.dst.network_id = net_id;
    }
    let res = match frame.body {
        Ok(body) => stack.send_raw(&hdr, body, ident.again()),
        Err(err) => stack.send_err(&hdr, err, Some(ident.again())),
    };
    let ghost sent = *stack;
    assert(interface_manager::passed_on(mid, sent, hdr, frame.content(), ident, res));
    if let Err(NetStackSendError::InterfaceSend(InterfaceSendError::PacketTooBig { mtu })) = res {
        // The error reply is unicast back to the original source. If that source
        // port is a reserved port there is no valid destination to reply to.
        if let Some(err_hdr) = packet_too_big_header(&hdr) {
            let reply = stack.send_err(
                &err_hdr,
                ProtocolError::IsePacketTooBig { mtu },
                Some(ident),
            );
            assert(net_stack::error_sent(
                sent,
                *stack,
                err_hdr,
                ProtocolError::IsePacketTooBig { mtu },
                Some(ident),
                reply,
            ));
        }
    }
    assert(answered(sent, *stack, hdr, ident, res));
    assert(passed_on_and_answered(mid, *stack, hdr, frame.content(), ident));
}

/// The processor knows the net_id that its interface has now, if it is active.
pub open spec fn synced<P: Profile>(
    p: RouterFrameProcessor,
    p2: RouterFrameProcessor,
    before: P,
    after: P,
    ident: P::InterfaceIdent,
) -> bool {
    exists|state: Option<InterfaceState>|
        {
            &&& #[trigger] net_stack::profile_step(
                before,
                after,
                ProfileStep::StateRead { ident, r: state },
            )
            &&& p2 == (match state {
                Some(InterfaceState::Active { net_id, node_id }) => RouterFrameProcessor {
                    net_id,
                    ..p
                },
                _ => p,
            })
        }
}

/// An inactive interface is activated with the net_id of the processor, once.
pub open spec fn first_activation<P: Profile>(
    p: RouterFrameProcessor,
    p2: RouterFrameProcessor,
    before: P,
    after: P,
    ident: P::InterfaceIdent,
    changed: bool,
) -> bool {
    if p.activated {
        p2 == p && after == before && !changed
    } else {
        exists|read: P, state: Option<InterfaceState>|
            {
                &&& #[trigger] net_stack::profile_step(
                    before,
                    read,
                    ProfileStep::StateRead { ident, r: state },
                )
                &&& changed == (state == Some(InterfaceState::Inactive))
                &&& p2 == (RouterFrameProcessor { activated: changed, ..p })
                &&& if changed {
                    exists|r: Result<(), SetStateError>| #[trigger]
                        net_stack::profile_step(
                            read,
                            after,
                            ProfileStep::StateSet {
                                ident,
                                state: InterfaceState::Active {
                                    net_id: p.net_id,
                                    node_id: CENTRAL_NODE_ID,
                                },
                                r,
                            },
                        )
                } else {
                    after == read
                }
            }
    }
}

/// What processing one frame does to the processor and to the stack.
pub open spec fn router_processed<P: Profile>(
    p: RouterFrameProcessor,
    p2: RouterFrameProcessor,
    before: NetStack<P>,
    after: NetStack<P>,
    data: Seq<u8>,
    ident: P::InterfaceIdent,
    changed: bool,
) -> bool {
    exists|p1: RouterFrameProcessor, read: NetStack<P>, done: NetStack<P>|
        {
            &&& #[trigger] synced(p, p1, before.profile, read.profile, ident)
            &&& read.sockets == before.sockets
            &&& #[trigger] frame_processed(p1.net_id, read, done, data, ident)
            &&& first_activation(p1, p2, done.profile, after.profile, ident, changed)
            &&& after.sockets == done.sockets
        }
}

/// Keep net_id in sync with the interface slot.
fn sync_net_id<P: Profile>(p: &mut RouterFrameProcessor, profile: &mut P, ident: P::InterfaceIdent)
    requires
        old(profile).wf(),
    ensures
        final(profile).wf(),
        synced(*old(p), *final(p), *old(profile), *final(profile), ident),
{
    let ghost before = *profile;
    let state = profile.interface_state(ident.again());
    assert(net_stack::profile_step(before, *profile, ProfileStep::StateRead { ident, r: state }));
    if let Some(InterfaceState::Active { net_id, .. }) = state {
        p.net_id = net_id;
    }
}

/// Activate an inactive interface, see [`first_activation`].
fn activate_once<P: Profile>(
    p: &mut RouterFrameProcessor,
    profile: &mut P,
    ident: P::InterfaceIdent,
) -> (changed: bool)
    requires
        old(profile).wf(),
    ensures
        final(profile).wf(),
        first_activation(*old(p), *final(p), *old(profile), *final(profile), ident, changed),
{
    if p.activated {
        return false;
    }
    let ghost before = *profile;
    let state = profile.interface_state(ident.again());
    let ghost read = *profile;
    assert(net_stack::profile_step(before, read, ProfileStep::StateRead { ident, r: state }));
    match state {
        Some(InterfaceState::Inactive) => {
            let r = profile.set_interface_state(
                ident.again(),
                InterfaceState::Active { net_id: p.net_id, node_id: CENTRAL_NODE_ID },
            );
            assert(net_stack::profile_step(
                read,
                *profile,
                ProfileStep::StateSet {
                    ident,
                    state: InterfaceState::Active { net_id: p.net_id, node_id: CENTRAL_NODE_ID },
                    r,
                },
            ));
            p.activated = true;
            true
        },
        _ => false,
    }
}

impl<P: Profile> FrameProcessor<P> for RouterFrameProcessor {
    open spec fn processed(
        before: Self,
        after: Self,
        stack_before: NetStack<P>,
        stack_after: NetStack<P>,
        data: Seq<u8>,
        ident: P::InterfaceIdent,
        changed: bool,
    ) -> bool {
        router_processed(before, after, stack_before, stack_after, data, ident, changed)
    }

    open spec fn after_reset(self) -> Self {
        RouterFrameProcessor { activated: false, ..self }
    }

    fn process_frame(&mut self, data: &[u8], stack: &mut NetStack<P>, ident: P::InterfaceIdent) -> (changed:
        bool) {
        let ghost p = *self;
        let ghost before = *stack;
        // The slot can be reassigned (e.g. a bridge downstream that re-seeds
        // after losing its parent lease). Re-read its net_id every frame, so a
        // reassignment cannot leave this processor rewriting addresses with a
        // stale net_id.
        sync_net_id(self, &mut stack.profile, ident.again());
        let ghost p1 = *self;
        let ghost read = *stack;
        assert(synced(p, p1, before.profile, read.profile, ident));
        process_frame(self.net_id, data, stack, ident.again());
        let ghost done = *stack;
        assert(frame_processed(p1.net_id, read, done, data@, ident));
        activate_once(self, &mut stack.profile, ident)
    }

    fn reset(&mut self) {
        self.activated = false;
    }
}

/// A frame that is passed on never has a source net of zero, which would mean
/// "this node", on a segment that has a net_id.
pub proof fn passed_on_frames_have_a_source(net_id: u16, hdr: Header)
    requires
        net_id != 0,
    ensures
        with_segment_source(net_id, hdr) matches Some(h) ==> h.src.network_id != 0
            && with_segment_destination(net_id, h).dst.network_id != 0,
{
}

/// A frame in transit is not held to the node claims of this router.
pub proof fn transit_needs_no_claim(net_id: u16, hdr: Header)
    requires
        hdr.src.network_id != 0,
        hdr.src.network_id != net_id,
    ensures
        with_segment_source(net_id, hdr) == Some(hdr),
        !needs_claim(net_id, hdr),
{
}

/// The reply to a frame that was too big is addressed to where the frame came
/// from, carries its class, and is never for an "any" or "all" port.
pub proof fn too_big_reply_is_for_the_sender(hdr: Header)
    ensures
        too_big_reply(hdr) matches Some(reply) ==> {
            &&& reply.dst == hdr.src
            &&& reply.src == hdr.dst
            &&& reply.class == hdr.class
            &&& !wire_frames::any_all_port(reply.dst.port_id)
        },
{
}

} // verus!

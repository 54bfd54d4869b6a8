use ergot::interface_manager::profiles::direct_edge::{
    DirectEdge, EdgeFrameProcessor, CENTRAL_NODE_ID, EDGE_NODE_ID,
};
use ergot::interface_manager::profiles::router::{Router, UPSTREAM_IDENT};
use ergot::interface_manager::{
    FrameProcessor, Interface, InterfaceSink, Payload, InterfaceState, Profile, SeedLease,
};
use ergot::{wire_frames, Address, FrameKind, Header, NetStack, TrafficClass};
use rand::SeedableRng;

// --- Sink that accepts everything ---

#[derive(Clone)]
struct NullSink;

impl InterfaceSink for NullSink {
    fn sent(_: Self, _: Self, _: Header, _: Payload, _: bool) -> bool {
        unreachable!("only a specification")
    }
    fn spec_mtu(&self) -> u16 {
        unreachable!("only a specification")
    }
    fn mtu(&self) -> u16 {
        2048
    }
    fn send_ty(&mut self, _hdr: &Header, _body: &[u8]) -> Result<(), ()> {
        Ok(())
    }
    fn send_raw(&mut self, _hdr: &Header, _body: &[u8]) -> Result<(), ()> {
        Ok(())
    }
    fn send_err(&mut self, _hdr: &Header, _err: ergot::ProtocolError) -> Result<(), ()> {
        Ok(())
    }
}

struct MockInterface;
impl Interface for MockInterface {
    type Sink = NullSink;
}

type BridgeRouter = Router<MockInterface, rand::rngs::StdRng, 4, 8, 0>;
type BridgeStack = NetStack<BridgeRouter>;

type EdgeProfile = DirectEdge<MockInterface>;
type EdgeStack = NetStack<EdgeProfile>;

fn encode(hdr: &Header) -> Vec<u8> {
    let mut buf = vec![0u8; 64];
    let len = wire_frames::encode_frame_ty(&mut buf, hdr, &[42]).unwrap();
    buf.truncate(len);
    buf
}

/// A frame from the root (net 10, CENTRAL) to `dst`, as seen by an upstream
/// RX worker.
fn frame_to(dst_net: u16, dst_node: u8) -> Vec<u8> {
    let hdr = Header {
        src: Address { network_id: 10, node_id: CENTRAL_NODE_ID, port_id: 1 },
        dst: Address { network_id: dst_net, node_id: dst_node, port_id: 5 },
        any_all: None,
        kind: FrameKind::endpoint_req(),
        class: TrafficClass::Normal,
        ttl: 16,
    };
    encode(&hdr)
}

/// Bridge stack with one downstream slot (net 1) and one seed route (net 2).
/// The upstream's "real" net, as the root would assign it, is 7 in these
/// tests — deliberately absent from the bridge's own tables.
fn bridge_stack() -> BridgeStack {
    let mut stack: BridgeStack = BridgeStack::new_with_profile(Router::new_bridge(
        rand::rngs::StdRng::from_seed([0u8; 32]),
        NullSink,
    ));
    let slot_ident = stack.profile.register_interface_pending(NullSink).unwrap();
    stack.profile.reassign_interface_net_id(slot_ident, 1).unwrap();
    let slot_net = stack.profile.net_id_of(slot_ident).unwrap();
    assert_eq!(slot_net, 1);
    let parent = SeedLease {
        net_id: 2,
        refresh_addr: Address { network_id: 7, node_id: CENTRAL_NODE_ID, port_id: 42 },
        release_addr: Address { network_id: 7, node_id: CENTRAL_NODE_ID, port_id: 43 },
        refresh_token: [0xAA; 8],
        expires_seconds: 30,
        max_refresh_seconds: 120,
        min_refresh_seconds: 62,
    };
    let seed = stack.profile.register_delegated_seed_net(slot_net, &parent).unwrap();
    assert_eq!(seed.net_id, 2);
    stack
}

fn upstream_state(stack: &mut BridgeStack) -> InterfaceState {
    stack.profile.interface_state(UPSTREAM_IDENT).unwrap()
}

/// `FrameProcessor::reset` is generic over the profile, so a bare
/// `proc.reset()` can't infer it — qualify it.
fn reset_bridge_proc(p: &mut EdgeFrameProcessor) {
    <EdgeFrameProcessor as FrameProcessor<BridgeRouter>>::reset(p);
}

fn reset_edge_proc(p: &mut EdgeFrameProcessor) {
    <EdgeFrameProcessor as FrameProcessor<EdgeProfile>>::reset(p);
}

#[test]
fn router_transit_nets_are_slots_and_seed_routes() {
    let mut stack = bridge_stack();
    {
        let im = &mut stack.profile;
        assert!(im.is_transit_net(1), "downstream slot net is transit");
        assert!(im.is_transit_net(2), "seed-assigned net is transit");
        assert!(!im.is_transit_net(7), "the upstream's own net is not");
        assert!(!im.is_transit_net(0), "link-local is never transit");
    }
}

#[test]
fn boot_discovery_latches_only_from_bridge_addressed_frames() {
    let mut stack = bridge_stack();
    // Canonical upstream boot state: link-local placeholder.
    stack.profile.set_interface_state(
                UPSTREAM_IDENT,
                InterfaceState::Active {
                    net_id: 0,
                    node_id: EDGE_NODE_ID,
                },
            ).unwrap();
    let mut proc = EdgeFrameProcessor::new();

    // A transit frame arriving first at boot must NOT latch.
    let changed = proc.process_frame(&frame_to(1, EDGE_NODE_ID), &mut stack, UPSTREAM_IDENT);
    assert!(!changed);
    assert!(
        matches!(
            upstream_state(&mut stack),
            InterfaceState::Active { net_id: 0, .. }
        ),
        "transit frame at boot must not donate a net_id"
    );

    // A bridge-addressed frame latches the real upstream net.
    let changed = proc.process_frame(&frame_to(7, EDGE_NODE_ID), &mut stack, UPSTREAM_IDENT);
    assert!(changed);
    assert!(matches!(
        upstream_state(&mut stack),
        InterfaceState::Active { net_id: 7, .. }
    ));

    // Steady state: later transit frames change nothing.
    let changed = proc.process_frame(&frame_to(2, EDGE_NODE_ID), &mut stack, UPSTREAM_IDENT);
    assert!(!changed);
    assert!(matches!(
        upstream_state(&mut stack),
        InterfaceState::Active { net_id: 7, .. }
    ));
}

/// The mislatch regression: after a liveness reset, a transit frame arriving
/// first must reactivate the upstream with its OLD net, not hijack it.
#[test]
fn transit_frame_after_reset_reactivates_instead_of_hijacking() {
    let mut stack = bridge_stack();
    stack.profile.set_interface_state(
                UPSTREAM_IDENT,
                InterfaceState::Active {
                    net_id: 0,
                    node_id: EDGE_NODE_ID,
                },
            ).unwrap();
    let mut proc = EdgeFrameProcessor::new();
    proc.process_frame(&frame_to(7, EDGE_NODE_ID), &mut stack, UPSTREAM_IDENT);
    assert!(matches!(
        upstream_state(&mut stack),
        InterfaceState::Active { net_id: 7, .. }
    ));

    for transit_net in [1u16, 2] {
        // Liveness timeout: the RX worker marks the interface Inactive and
        // resets the processor.
        stack.profile.set_interface_state(UPSTREAM_IDENT, InterfaceState::Inactive).unwrap();
        reset_bridge_proc(&mut proc);

        // First frame after the quiet period is transit (root → downstream
        // segment). The old blind latch adopted `transit_net` here.
        let changed =
            proc.process_frame(&frame_to(transit_net, EDGE_NODE_ID), &mut stack, UPSTREAM_IDENT);
        assert!(changed, "reactivation is a state change");
        assert!(
            matches!(
                upstream_state(&mut stack),
                InterfaceState::Active { net_id: 7, .. }
            ),
            "upstream must keep its own net_id, not adopt transit net {transit_net}"
        );
    }
}

/// Renumbering: after a reset, a bridge-addressed frame with a DIFFERENT
/// (non-transit) net updates the upstream — e.g. the root rebooted and
/// assigned this segment a new net_id.
#[test]
fn rediscovery_accepts_renumbered_upstream_net() {
    let mut stack = bridge_stack();
    stack.profile.set_interface_state(
                UPSTREAM_IDENT,
                InterfaceState::Active {
                    net_id: 0,
                    node_id: EDGE_NODE_ID,
                },
            ).unwrap();
    let mut proc = EdgeFrameProcessor::new();
    proc.process_frame(&frame_to(7, EDGE_NODE_ID), &mut stack, UPSTREAM_IDENT);

    stack.profile.set_interface_state(UPSTREAM_IDENT, InterfaceState::Inactive).unwrap();
    reset_bridge_proc(&mut proc);

    let changed = proc.process_frame(&frame_to(9, EDGE_NODE_ID), &mut stack, UPSTREAM_IDENT);
    assert!(changed);
    assert!(matches!(
        upstream_state(&mut stack),
        InterfaceState::Active { net_id: 9, .. }
    ));
}

/// A transit frame may be the first sign that a quiet link is alive, but it
/// must not permanently close renumbering discovery on the sticky old net.
#[test]
fn transit_first_then_donor_accepts_renumbered_upstream_net() {
    let mut stack = bridge_stack();
    stack.profile.set_interface_state(
                UPSTREAM_IDENT,
                InterfaceState::Active {
                    net_id: 0,
                    node_id: EDGE_NODE_ID,
                },
            ).unwrap();
    let mut proc = EdgeFrameProcessor::new();
    proc.process_frame(&frame_to(7, EDGE_NODE_ID), &mut stack, UPSTREAM_IDENT);

    stack.profile.set_interface_state(UPSTREAM_IDENT, InterfaceState::Inactive).unwrap();
    reset_bridge_proc(&mut proc);

    assert!(proc.process_frame(&frame_to(1, EDGE_NODE_ID), &mut stack, UPSTREAM_IDENT));
    assert!(matches!(
        upstream_state(&mut stack),
        InterfaceState::Active { net_id: 7, .. }
    ));

    assert!(proc.process_frame(&frame_to(9, EDGE_NODE_ID), &mut stack, UPSTREAM_IDENT));
    assert!(matches!(
        upstream_state(&mut stack),
        InterfaceState::Active { net_id: 9, .. }
    ));
}

/// Frames addressed to the far side's node (CENTRAL, from an edge's point of
/// view) never donate a net — only frames addressed to us do.
#[test]
fn frames_to_other_nodes_do_not_donate_a_net() {
    let mut stack = bridge_stack();
    stack.profile.set_interface_state(UPSTREAM_IDENT, InterfaceState::Inactive).unwrap();
    let mut proc = EdgeFrameProcessor::new();

    let changed = proc.process_frame(&frame_to(7, CENTRAL_NODE_ID), &mut stack, UPSTREAM_IDENT);
    assert!(!changed);
    assert!(matches!(upstream_state(&mut stack), InterfaceState::Inactive));
}

/// A controller-mode edge must reactivate as CENTRAL after a liveness reset.
/// The old code cleared the net on reset and re-latched from the next frame
/// with `node_id: EDGE`, silently corrupting the controller's own node.
#[test]
fn controller_reactivates_as_central() {
    let mut stack: EdgeStack = EdgeStack::new_with_profile(DirectEdge::new_controller(
        NullSink,
        InterfaceState::Active {
            net_id: 5,
            node_id: CENTRAL_NODE_ID,
        },
    ));
    let mut proc = EdgeFrameProcessor::new_controller(5);

    // Liveness timeout on the controller side.
    stack.profile.set_interface_state((), InterfaceState::Inactive).unwrap();
    reset_edge_proc(&mut proc);

    // Frame from the target (addressed to us, the controller).
    let hdr = Header {
        src: Address {
            network_id: 5,
            node_id: EDGE_NODE_ID,
            port_id: 1,
        },
        dst: Address {
            network_id: 5,
            node_id: CENTRAL_NODE_ID,
            port_id: 5,
        },
        any_all: None,
        kind: FrameKind::endpoint_req(),
        class: TrafficClass::Normal,
        ttl: 16,
    };
    let frame = encode(&hdr);

    let changed = proc.process_frame(&frame, &mut stack, ());
    assert!(changed);
    let state = stack.profile.interface_state(()).unwrap();
    assert!(
        matches!(
            state,
            InterfaceState::Active {
                net_id: 5,
                node_id: CENTRAL_NODE_ID,
            }
        ),
        "controller must come back as CENTRAL, got {state:?}"
    );
}

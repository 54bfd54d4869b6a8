use std::sync::{Arc, Mutex};

use ergot::clock::Closer;
use ergot::interface_manager::profiles::direct_edge::{
    DirectEdge, EdgeFrameProcessor, CENTRAL_NODE_ID, EDGE_NODE_ID,
};
use ergot::interface_manager::profiles::router::{Router, UPSTREAM_IDENT};
use ergot::interface_manager::{
    FrameProcessor, Interface, InterfaceSendError, InterfaceSink, InterfaceState, Payload, Profile,
    SetStateError,
};
use ergot::well_known::WellKnown;
use ergot::{
    wire_frames, Address, FrameKind, Header, NetStack, ProtocolError, TrafficClass, DEFAULT_TTL,
};

type Log = Arc<Mutex<Vec<Header>>>;

struct LogSink(Log);

impl InterfaceSink for LogSink {
    fn sent(_: Self, _: Self, _: Header, _: Payload, _: bool) -> bool {
        unreachable!("only a specification")
    }
    fn spec_mtu(&self) -> u16 {
        unreachable!("only a specification")
    }
    fn mtu(&self) -> u16 {
        2048
    }
    fn send_ty(&mut self, hdr: &Header, _: &[u8]) -> Result<(), ()> {
        self.0.lock().unwrap().push(*hdr);
        Ok(())
    }
    fn send_raw(&mut self, hdr: &Header, _: &[u8]) -> Result<(), ()> {
        self.0.lock().unwrap().push(*hdr);
        Ok(())
    }
    fn send_err(&mut self, hdr: &Header, _: ProtocolError) -> Result<(), ()> {
        self.0.lock().unwrap().push(*hdr);
        Ok(())
    }
}

struct TestInterface;

impl Interface for TestInterface {
    type Sink = LogSink;
}

fn log() -> Log {
    Arc::new(Mutex::new(Vec::new()))
}

fn header(dst_net: u16, dst_node: u8) -> Header {
    Header {
        src: Address { network_id: 0, node_id: 0, port_id: 9 },
        dst: Address { network_id: dst_net, node_id: dst_node, port_id: 5 },
        any_all: None,
        kind: FrameKind::endpoint_req(),
        class: TrafficClass::Normal,
        ttl: DEFAULT_TTL,
    }
}

fn encode(hdr: &Header) -> Vec<u8> {
    let mut buf = vec![0u8; 64];
    let len = wire_frames::encode_frame_ty(&mut buf, hdr, &[42]).unwrap();
    buf.truncate(len);
    buf
}

#[test]
fn the_link_local_state_of_an_edge() {
    assert_eq!(
        InterfaceState::edge_link_local(),
        InterfaceState::Active { net_id: 0, node_id: EDGE_NODE_ID }
    );
}

#[test]
fn an_edge_sends_over_its_one_interface() {
    let log = log();
    let mut edge: DirectEdge<TestInterface> = DirectEdge::new_target(LogSink(log.clone()));
    assert_eq!(edge.send(&header(9, 9), &[1]), Err(InterfaceSendError::NoRouteToDest));
    let state = InterfaceState::Active { net_id: 4, node_id: EDGE_NODE_ID };
    assert_eq!(edge.set_interface_state((), state), Ok(()));
    assert_eq!(edge.interface_state(()), Some(state));
    assert_eq!(edge.send(&header(9, 9), &[1]), Ok(()));
    assert_eq!(
        edge.send(&header(4, EDGE_NODE_ID), &[1]),
        Err(InterfaceSendError::DestinationLocal)
    );
    let sent = log.lock().unwrap()[0];
    assert_eq!(sent.src, Address { network_id: 4, node_id: EDGE_NODE_ID, port_id: 9 });
    assert_eq!(sent.ttl, DEFAULT_TTL - 1);
    // What came in does not go out again
    assert_eq!(edge.send_raw(&header(9, 9), &[1], ()), Err(InterfaceSendError::RoutingLoop));
    let err = ProtocolError::NsseNoRoute;
    assert_eq!(edge.send_err(&header(9, 9), err, Some(())), Err(InterfaceSendError::RoutingLoop));
    assert_eq!(edge.send_err(&header(9, 9), err, None), Ok(()));
    assert_eq!(
        edge.set_interface_state((), InterfaceState::ActiveLocal { node_id: 0 }),
        Err(SetStateError::InvalidNodeId)
    );
}

#[test]
fn tearing_an_edge_down_stops_its_workers() {
    let first = Arc::new(maitake_sync::WaitQueue::new());
    let second = Arc::new(maitake_sync::WaitQueue::new());
    let state = InterfaceState::Active { net_id: 4, node_id: CENTRAL_NODE_ID };
    let mut edge: DirectEdge<TestInterface> = DirectEdge::new_controller(LogSink(log()), state);
    edge.set_closer(Closer { queue: first.clone() });
    // Another closer takes the place of the first
    edge.set_closer(Closer { queue: second.clone() });
    assert!(first.is_closed());
    assert!(!second.is_closed());
    edge.teardown();
    assert!(second.is_closed());
    assert_eq!(edge.interface_state(()), Some(InterfaceState::Down));
}

#[test]
fn an_edge_drops_frames_that_cannot_be_from_the_other_side() {
    let mut stack: NetStack<DirectEdge<TestInterface>> =
        NetStack::new_with_profile(DirectEdge::new_target(LogSink(log())));
    let mut processor = EdgeFrameProcessor::default();
    // Garbage changes nothing
    assert!(!processor.process_frame(&[0x80], &mut stack, ()));
    assert!(processor.process_frame(&encode(&header(4, EDGE_NODE_ID)), &mut stack, ()));
    assert_eq!(
        stack.profile.interface_state(()),
        Some(InterfaceState::Active { net_id: 4, node_id: EDGE_NODE_ID })
    );
    let mut hdr = header(4, EDGE_NODE_ID);
    assert_eq!(processor.accept(&hdr), None);
    hdr.src.node_id = EDGE_NODE_ID;
    assert_eq!(processor.accept(&hdr), None);
    hdr.src.node_id = CENTRAL_NODE_ID;
    assert_eq!(processor.accept(&hdr).unwrap().src.network_id, 4);
    hdr.src.network_id = 8;
    assert_eq!(processor.accept(&hdr), Some(hdr));
}

#[test]
fn a_bridge_with_a_random_generator_starts_down() {
    let mut bridge: Router<TestInterface, rand::rngs::StdRng, 4, 4, 0> =
        Router::new_bridge_std(LogSink(log())).unwrap();
    assert!(bridge.has_upstream());
    assert_eq!(bridge.interface_state(UPSTREAM_IDENT), Some(InterfaceState::Down));
    assert_eq!(bridge.seed_delegation_upstream(), Some(UPSTREAM_IDENT));
}

#[test]
fn well_known_paths_and_classes() {
    assert_eq!(WellKnown::Ping.path(), "ergot/.well-known/ping");
    assert_eq!(WellKnown::Ping.class(), TrafficClass::Control);
    assert_eq!(WellKnown::Defmt.class(), TrafficClass::Background);
    assert_eq!(WellKnown::PathMtu.path(), "ergot/.well-known/path-mtu");
    assert_eq!(WellKnown::PathMtu.class(), TrafficClass::Normal);
}

#[test]
fn traffic_classes_and_kinds() {
    for bits in 0..=u8::MAX {
        assert_eq!(TrafficClass::from_bits(bits).to_bits(), bits & 3);
        assert_eq!(FrameKind(bits).is_valid(), bits <= FrameKind::MAX_BITS);
    }
    assert_eq!(TrafficClass::default(), TrafficClass::Normal);
}

#[test]
fn addresses_and_their_words() {
    let a = Address { network_id: 0x1234, node_id: 0x56, port_id: 0x78 };
    assert_eq!(a.as_u32(), 0x1234_5678);
    assert_eq!(Address::from_word(0x1234_5678), a);
    assert_eq!(Address::unknown().as_u32(), 0);
}

#[test]
fn hops_are_counted_down() {
    let mut hdr = header(1, 1);
    hdr.ttl = 1;
    assert_eq!(hdr.decrement_ttl(), Ok(()));
    assert_eq!(hdr.ttl, 0);
    assert_eq!(hdr.decrement_ttl(), Err(InterfaceSendError::TtlExpired));
    assert_eq!(hdr.ttl, 0);
}

#[test]
fn interface_errors_are_reported() {
    assert_eq!(InterfaceSendError::InterfaceFull.to_error(), ProtocolError::IseInterfaceFull);
    assert_eq!(
        InterfaceSendError::PacketTooBig { mtu: 9 }.to_error(),
        ProtocolError::IsePacketTooBig { mtu: 9 }
    );
}

#[test]
fn an_edge_says_when_its_state_changes() {
    let mut stack: NetStack<DirectEdge<TestInterface>> =
        NetStack::new_with_profile(DirectEdge::new_target(LogSink(log())));
    let mut processor = EdgeFrameProcessor::new();
    let frames = [
        vec![0xFF; 3],
        encode(&header(0, EDGE_NODE_ID)),
        encode(&header(4, CENTRAL_NODE_ID)),
        encode(&header(4, EDGE_NODE_ID)),
        encode(&header(4, EDGE_NODE_ID)),
        encode(&header(5, EDGE_NODE_ID)),
    ];
    let mut reports = Vec::new();
    for frame in frames {
        let before = stack.profile.interface_state(());
        let changed = processor.process_frame(&frame, &mut stack, ());
        assert_eq!(changed, stack.profile.interface_state(()) != before);
        reports.push(changed);
    }
    assert_eq!(reports, [false, false, false, true, false, false]);
    assert_eq!(
        stack.profile.interface_state(()),
        Some(InterfaceState::Active { net_id: 4, node_id: EDGE_NODE_ID })
    );
}

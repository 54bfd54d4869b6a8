use std::sync::{Arc, Mutex};

use ergot::clock::{Clock, Closer, TokenSource};
use ergot::interface_manager::edge_port::EdgePort;
use ergot::interface_manager::leases::{
    remaining_lease_seconds, time_after, token_from_bytes, token_to_bytes, LeaseKind, RefreshDenied,
    NANOS_PER_SEC,
};
use ergot::interface_manager::profiles::router::{
    DeregisterError, RegisterError, Router, RouterFrameProcessor, UPSTREAM_IDENT,
};
use ergot::interface_manager::profiles::router_model::SeedRoute;
use ergot::interface_manager::profiles::router_state::RouterState;
use ergot::interface_manager::{
    AddressClaimError, AddressRefreshError, DelegatedRefreshPreparation, FrameProcessor, Interface,
    InterfaceSendError, InterfaceSink, InterfaceState, Payload, Profile, SeedAssignmentError,
    SeedLease, SeedRefreshError, SetStateError,
};
use ergot::{
    wire_frames, Address, AnyAllAppendix, FrameKind, Header, Key, NetStack, ProtocolError,
    TrafficClass,
};
use rand::rngs::StdRng;
use rand::SeedableRng;

type Log = Arc<Mutex<Vec<Header>>>;

struct LogSink {
    log: Log,
    mtu: u16,
}

impl InterfaceSink for LogSink {
    fn sent(_: Self, _: Self, _: Header, _: Payload, _: bool) -> bool {
        unreachable!("only a specification")
    }
    fn spec_mtu(&self) -> u16 {
        unreachable!("only a specification")
    }
    fn mtu(&self) -> u16 {
        self.mtu
    }
    fn send_ty(&mut self, hdr: &Header, _: &[u8]) -> Result<(), ()> {
        self.log.lock().unwrap().push(*hdr);
        Ok(())
    }
    fn send_raw(&mut self, hdr: &Header, _: &[u8]) -> Result<(), ()> {
        self.log.lock().unwrap().push(*hdr);
        Ok(())
    }
    fn send_err(&mut self, hdr: &Header, _: ProtocolError) -> Result<(), ()> {
        self.log.lock().unwrap().push(*hdr);
        Ok(())
    }
}

struct TestInterface;

impl Interface for TestInterface {
    type Sink = LogSink;
}

fn sink() -> LogSink {
    LogSink { log: Arc::new(Mutex::new(Vec::new())), mtu: 2048 }
}

fn logging_sink(log: &Log, mtu: u16) -> LogSink {
    LogSink { log: log.clone(), mtu }
}

fn secs(n: u128) -> u128 {
    n * NANOS_PER_SEC
}

/// Tokens 1, 2, 3 and so on.
struct Count(u64);

impl TokenSource for Count {
    fn drew(_: Self, _: Self, _: u64) -> bool {
        unreachable!("only a specification")
    }
    fn next_u64(&mut self) -> u64 {
        self.0 += 1;
        self.0
    }
}

type State = RouterState<TestInterface, 2, 2, 2>;

fn header(dst_net: u16, dst_node: u8, ttl: u8) -> Header {
    Header {
        src: Address { network_id: 0, node_id: 0, port_id: 9 },
        dst: Address { network_id: dst_net, node_id: dst_node, port_id: 5 },
        any_all: None,
        kind: FrameKind::endpoint_req(),
        class: TrafficClass::Bulk,
        ttl,
    }
}

fn parent(net_id: u16, min_refresh_seconds: u16) -> SeedLease {
    SeedLease {
        net_id,
        refresh_addr: Address { network_id: 70, node_id: 1, port_id: 42 },
        release_addr: Address { network_id: 70, node_id: 1, port_id: 43 },
        refresh_token: [0xAA; 8],
        expires_seconds: 30,
        max_refresh_seconds: 120,
        min_refresh_seconds,
    }
}

#[test]
fn transit_check_collects_seed_tombstones_after_grace() {
    const NET_ID: u16 = 42;
    let mut router: Router<TestInterface, StdRng, 1, 1, 0> = Router::new(StdRng::seed_from_u64(0));

    let clear_time = time_after(router.clock.now(), 60);
    assert!(router.state.seed_routes.push(
        NET_ID,
        1,
        SeedRoute { via_ident: 0, parent: None },
        LeaseKind::Tombstone { clear_time },
    ));
    assert!(
        router.is_transit_net(NET_ID),
        "a tombstone inside its grace period must remain transit"
    );

    router.state.seed_routes.entries[0].kind =
        LeaseKind::Tombstone { clear_time: router.clock.now() };
    assert!(
        !router.is_transit_net(NET_ID),
        "a tombstone past its grace period must not block upstream rediscovery"
    );
    assert!(router.state.seed_routes.entries.is_empty());
}

#[test]
fn interfaces_get_the_lowest_free_net() {
    let mut s = State::new();
    assert_eq!(s.register_interface(sink(), 0), Ok(0));
    assert_eq!(s.register_interface(sink(), 0), Ok(1));
    assert_eq!(s.get_nets(), vec![1, 2]);
    assert_eq!(s.register_interface(sink(), 0), Err(RegisterError::Full));
    assert_eq!(s.deregister_interface(0, 0), Ok(()));
    assert_eq!(s.deregister_interface(0, 0), Err(DeregisterError::NotFound));
    assert_eq!(s.net_id_of(0), None);
    assert_eq!(s.register_interface(sink(), 0), Ok(0));
    assert_eq!(s.net_id_of(0), Some(1));
}

#[test]
fn frames_without_hops_left_stop() {
    let log: Log = Arc::new(Mutex::new(Vec::new()));
    let mut s = State::new();
    s.register_interface(logging_sink(&log, 2048), 0).unwrap();
    assert_eq!(s.send(&header(1, 2, 0), &[1], 0), Err(InterfaceSendError::TtlExpired));
    assert!(log.lock().unwrap().is_empty());
    assert_eq!(s.send(&header(1, 2, 3), &[1], 0), Ok(()));
    let sent = log.lock().unwrap()[0];
    assert_eq!(sent.ttl, 2);
    // The source is completed on the way out
    assert_eq!(sent.src, Address { network_id: 1, node_id: 1, port_id: 9 });
    assert_eq!(sent.class, TrafficClass::Bulk);
}

#[test]
fn frames_for_the_router_itself_are_local() {
    let mut s = State::new();
    s.register_interface(sink(), 0).unwrap();
    assert_eq!(s.send(&header(1, 1, 3), &[1], 0), Err(InterfaceSendError::DestinationLocal));
}

#[test]
fn raw_frames_do_not_go_back() {
    let mut s = State::new();
    let a = s.register_interface(sink(), 0).unwrap();
    let b = s.register_interface(sink(), 0).unwrap();
    let mut hdr = header(1, 2, 3);
    hdr.src.network_id = 1;
    assert_eq!(s.send_raw(&hdr, &[1], a, 0), Err(InterfaceSendError::RoutingLoop));
    assert_eq!(s.send_raw(&hdr, &[1], b, 0), Ok(()));
}

#[test]
fn a_packet_that_is_too_big_is_answered() {
    let sender: Log = Arc::new(Mutex::new(Vec::new()));
    let narrow: Log = Arc::new(Mutex::new(Vec::new()));
    let mut stack: NetStack<Router<TestInterface, StdRng, 4, 4, 0>> =
        NetStack::new_with_profile(Router::new(StdRng::seed_from_u64(0)));
    let arrival = stack.profile.register_interface(sink()).unwrap();
    stack.profile.register_interface(logging_sink(&narrow, 32)).unwrap();
    stack.profile.register_interface(logging_sink(&sender, 2048)).unwrap();
    // From net 3 to net 2, by way of net 1
    let mut hdr = header(2, 2, 3);
    hdr.src = Address { network_id: 3, node_id: 2, port_id: 9 };
    let mut buf = vec![0u8; 256];
    let len = wire_frames::encode_frame_ty(&mut buf, &hdr, &[0; 100]).unwrap();
    let mut processor = RouterFrameProcessor::new(1);
    processor.process_frame(&buf[..len], &mut stack, arrival);
    assert!(narrow.lock().unwrap().is_empty());
    {
        let replies = sender.lock().unwrap();
        assert_eq!(replies.len(), 1);
        assert_eq!(replies[0].dst, hdr.src);
        assert_eq!(replies[0].src, hdr.dst);
        assert_eq!(replies[0].kind, FrameKind::protocol_error());
        assert_eq!(replies[0].class, hdr.class);
    }
    // Nobody is told at a reserved port
    hdr.src.port_id = 255;
    let len = wire_frames::encode_frame_ty(&mut buf, &hdr, &[0; 100]).unwrap();
    processor.process_frame(&buf[..len], &mut stack, arrival);
    assert_eq!(sender.lock().unwrap().len(), 1);
}

#[test]
fn seed_leases_run_out() {
    let mut s = State::new();
    let mut tokens = Count(0);
    s.register_interface(sink(), 0).unwrap();
    let a = s.request_seed_net_assign(1, 0, &mut tokens).unwrap();
    assert_eq!(a.net_id, 2);
    assert_eq!(a.expires_seconds, 30);
    assert_eq!(a.max_refresh_seconds, 120);
    assert_eq!(a.min_refresh_seconds, 62);
    assert_eq!(a.refresh_token, token_to_bytes(1));
    // Routed while it lasts, reserved for another 30 seconds
    assert_eq!(s.send(&header(2, 2, 3), &[1], secs(29)), Ok(()));
    assert_eq!(s.send(&header(2, 2, 3), &[1], secs(30)), Err(InterfaceSendError::NoRouteToDest));
    assert!(s.is_transit_net(2, secs(59)));
    assert!(!s.is_transit_net(2, secs(60)));
    let b = s.request_seed_net_assign(1, secs(60), &mut tokens).unwrap();
    assert_eq!(b.net_id, 2);
}

#[test]
fn seed_assignment_errors() {
    let mut s = State::new();
    let mut tokens = Count(0);
    assert_eq!(
        s.request_seed_net_assign(1, 0, &mut tokens).unwrap_err(),
        SeedAssignmentError::UnknownSource
    );
    s.register_interface(sink(), 0).unwrap();
    s.request_seed_net_assign(1, 0, &mut tokens).unwrap();
    s.request_seed_net_assign(1, 0, &mut tokens).unwrap();
    assert_eq!(
        s.request_seed_net_assign(1, 0, &mut tokens).unwrap_err(),
        SeedAssignmentError::NetIdsExhausted
    );
}

#[test]
fn seed_refresh_and_release() {
    let mut s = State::new();
    let mut tokens = Count(0);
    s.register_interface(sink(), 0).unwrap();
    let a = s.request_seed_net_assign(1, 0, &mut tokens).unwrap();
    let bad = s.refresh_seed_net_assignment(1, a.net_id, [9; 8], 0, 50).unwrap_err();
    assert_eq!(bad, SeedRefreshError::BadRequest);
    let b = s.refresh_seed_net_assignment(1, a.net_id, a.refresh_token, secs(1), 50).unwrap();
    assert_eq!(b.expires_seconds, 120);
    assert_eq!(b.refresh_token, token_to_bytes(50));
    // Just refreshed
    assert_eq!(
        s.refresh_seed_net_assignment(1, a.net_id, b.refresh_token, secs(2), 51).unwrap_err(),
        SeedRefreshError::TooSoon
    );
    // A replay changes nothing
    let c = s.refresh_seed_net_assignment(1, a.net_id, a.refresh_token, secs(11), 52).unwrap();
    assert_eq!(c.refresh_token, b.refresh_token);
    assert_eq!(c.expires_seconds, 110);
    assert_eq!(
        s.refresh_seed_net_assignment(1, 77, a.refresh_token, secs(11), 52).unwrap_err(),
        SeedRefreshError::UnknownNetId
    );
    assert_eq!(s.release_seed_net_assignment(1, a.net_id, b.refresh_token, secs(12)), Ok(()));
    assert!(!s.is_transit_net(a.net_id, secs(12)));
    assert!(s.release_seed_net_assignment(1, a.net_id, b.refresh_token, secs(12)).is_err());
}

#[test]
fn delegation_shrinks_the_refresh_window() {
    let mut s: State = RouterState::new_bridge(sink());
    let mut tokens = Count(0);
    let down = s.register_interface_pending(sink()).unwrap();
    assert_eq!(s.register_interface(sink(), 0), Err(RegisterError::BridgeRequiresSeedAssignment));
    s.reassign_interface_net_id(down, 7).unwrap();
    assert_eq!(s.can_delegate_seed(7, 0), Ok(()));
    let a = s.register_delegated_seed_net(7, &parent(20, 62), 0, &mut tokens).unwrap();
    assert_eq!(a.net_id, 20);
    assert_eq!(a.expires_seconds, 30);
    assert!(a.min_refresh_seconds < 62);
    assert_eq!(
        s.register_delegated_seed_net(7, &parent(7, 62), 0, &mut tokens).unwrap_err(),
        SeedAssignmentError::NetIdCollision
    );
    // Passing on the same network again takes the place of the first time
    let first = a;
    let a = s.register_delegated_seed_net(7, &parent(20, 62), 0, &mut tokens).unwrap();
    assert_ne!(a.refresh_token, first.refresh_token);
    assert!(s.prepare_delegated_refresh(7, 20, first.refresh_token, secs(1)).is_err());
    let prep = s.prepare_delegated_refresh(7, 20, a.refresh_token, secs(1)).unwrap();
    assert_eq!(prep, DelegatedRefreshPreparation::Forward(parent(20, 62)));
    assert!(s.prepare_delegated_refresh(7, 20, [0; 8], secs(1)).is_err());
    let mut fresh = parent(20, 62);
    fresh.expires_seconds = 120;
    fresh.refresh_token = [0xBB; 8];
    let b = s.commit_delegated_refresh(7, a.refresh_token, &fresh, secs(1), 99).unwrap();
    assert_eq!(b.refresh_token, token_to_bytes(99));
    assert_eq!(b.expires_seconds, 120);
    // A lost response is replayed without asking the parent
    assert!(matches!(
        s.prepare_delegated_refresh(7, 20, a.refresh_token, secs(2)),
        Ok(DelegatedRefreshPreparation::Replay(r)) if r.refresh_token == b.refresh_token
    ));
    let lease = s.prepare_delegated_release(7, 20, b.refresh_token, secs(3)).unwrap();
    assert_eq!(lease, fresh);
    assert_eq!(s.commit_delegated_release(7, 20, b.refresh_token, secs(3)), Ok(()));
    assert!(!s.is_transit_net(20, secs(3)));
}

#[test]
fn node_claims() {
    let mut s = State::new();
    let mut tokens = Count(0);
    s.register_interface(sink(), 0).unwrap();
    let a = s.request_node_claim(1, 50, 7, 0, &mut tokens).unwrap();
    assert_eq!((a.node_id, a.net_id, a.expires_seconds), (50, 1, 30));
    assert!(s.is_node_claimed(1, 50, secs(29)));
    assert!(!s.is_node_claimed(1, 50, secs(30)));
    // The same device asks again, another one is turned away
    assert_eq!(s.request_node_claim(1, 50, 7, secs(1), &mut tokens).unwrap().refresh_token, a.refresh_token);
    assert_eq!(
        s.request_node_claim(1, 50, 8, secs(1), &mut tokens).unwrap_err(),
        AddressClaimError::Conflict
    );
    for reserved in [0, 1, 2, 255] {
        assert_eq!(
            s.request_node_claim(1, reserved, 8, secs(1), &mut tokens).unwrap_err(),
            AddressClaimError::InvalidNodeId
        );
    }
    assert_eq!(
        s.request_node_claim(9, 60, 8, secs(1), &mut tokens).unwrap_err(),
        AddressClaimError::UnknownSource
    );
    s.request_node_claim(1, 60, 8, secs(1), &mut tokens).unwrap();
    assert_eq!(
        s.request_node_claim(1, 61, 8, secs(1), &mut tokens).unwrap_err(),
        AddressClaimError::Exhausted
    );
    let b = s.refresh_node_claim(1, 50, a.refresh_token, secs(1), 60).unwrap();
    assert_eq!(b.expires_seconds, 120);
    assert_eq!(
        s.refresh_node_claim(1, 50, [0; 8], secs(1), 61).unwrap_err(),
        AddressRefreshError::BadRequest
    );
    // The point-to-point roles need no claim
    assert!(s.is_node_claimed(1, 1, 0));
    assert!(s.is_node_claimed(1, 2, 0));
    assert!(!s.is_node_claimed(1, 3, 0));
}

#[test]
fn states_of_interfaces() {
    let mut s = State::new();
    let a = s.register_interface(sink(), 0).unwrap();
    assert!(matches!(
        s.interface_state(a),
        Some(InterfaceState::Active { net_id: 1, node_id: 1 })
    ));
    assert_eq!(s.interface_state(9), None);
    assert_eq!(s.set_interface_state(a, InterfaceState::Inactive), Ok(()));
    assert_eq!(s.send(&header(1, 2, 3), &[1], 0), Err(InterfaceSendError::NoRouteToDest));
    assert_eq!(
        s.set_interface_state(9, InterfaceState::Down),
        Err(SetStateError::InterfaceNotFound)
    );
    assert!(!s.has_upstream());
    assert_eq!(s.interface_state(UPSTREAM_IDENT), None);
}

#[test]
fn edge_ports_reject_reserved_nodes() {
    let mut port: EdgePort<TestInterface> = EdgePort::new_target(sink());
    for node_id in [0, 255] {
        assert_eq!(
            port.set_state(InterfaceState::Active { net_id: 3, node_id }),
            Err(SetStateError::InvalidNodeId)
        );
        assert_eq!(
            port.set_state(InterfaceState::ActiveLocal { node_id }),
            Err(SetStateError::InvalidNodeId)
        );
    }
    assert_eq!(port.net_id(), None);
    assert_eq!(port.send(&header(9, 9, 3), &[]), Err(InterfaceSendError::NoRouteToDest));
    assert_eq!(port.set_state(InterfaceState::Active { net_id: 3, node_id: 47 }), Ok(()));
    assert_eq!(port.net_id(), Some(3));
    let mut any = header(3, 1, 3);
    any.dst.port_id = 0;
    assert_eq!(port.send(&any, &[]), Err(InterfaceSendError::AnyPortMissingKey));
    assert_eq!(
        port.send_raw(&header(9, 9, 3), &[0; 3000]),
        Err(InterfaceSendError::PacketTooBig { mtu: 2048 })
    );
}

#[test]
fn broadcasts_go_to_the_other_side() {
    let log: Log = Arc::new(Mutex::new(Vec::new()));
    let mut port: EdgePort<TestInterface> = EdgePort::new_target(logging_sink(&log, 2048));
    port.set_state(InterfaceState::Active { net_id: 3, node_id: 2 }).unwrap();
    let mut hdr = header(0, 0, 3);
    hdr.dst.port_id = 255;
    hdr.any_all = Some(AnyAllAppendix { key: Key(*b"TESTTEST"), nash: None });
    hdr.src.node_id = 40;
    assert_eq!(port.send(&hdr, &[]), Ok(()));
    let sent = log.lock().unwrap()[0];
    assert_eq!(sent.dst, Address { network_id: 3, node_id: 1, port_id: 255 });
    assert_eq!(sent.src, Address { network_id: 3, node_id: 40, port_id: 9 });
}

#[test]
fn leases_age() {
    let mut kind = LeaseKind::active(secs(100), 30, 5);
    assert!(kind.is_active(secs(129)));
    assert!(!kind.is_active(secs(130)));
    assert!(kind.gc_retain(secs(129)));
    assert!(matches!(kind, LeaseKind::Active(_)));
    assert!(kind.gc_retain(secs(140)));
    assert!(matches!(kind, LeaseKind::Tombstone { clear_time } if clear_time == secs(160)));
    assert!(!kind.gc_retain(secs(160)));
    assert_eq!(
        kind.refresh(5, secs(141), 6, true).unwrap_err(),
        RefreshDenied::Expired
    );
}

#[test]
fn lease_seconds_are_rounded_up() {
    assert_eq!(remaining_lease_seconds(secs(10), secs(10)), 0);
    assert_eq!(remaining_lease_seconds(secs(10), secs(9) + 1), 1);
    assert_eq!(remaining_lease_seconds(secs(10), secs(8)), 2);
}

#[test]
fn tokens_round_trip() {
    assert_eq!(token_to_bytes(0x0102_0304_0506_0708), [8, 7, 6, 5, 4, 3, 2, 1]);
    assert_eq!(token_from_bytes(token_to_bytes(u64::MAX - 5)), u64::MAX - 5);
}

#[test]
fn the_clock_does_not_run_backwards() {
    let clock = Clock::new();
    let a = clock.now();
    let b = clock.now();
    assert!(a <= b);
}

#[test]
fn random_tokens_come_from_the_generator() {
    let mut a = StdRng::seed_from_u64(3);
    let mut b = StdRng::seed_from_u64(3);
    for _ in 0..3 {
        assert_eq!(TokenSource::next_u64(&mut a), rand::Rng::random::<u64>(&mut b));
    }
    let mut one: Router<TestInterface, StdRng, 4, 4, 0> = Router::new_std().unwrap();
    let mut two: Router<TestInterface, StdRng, 4, 4, 0> = Router::new_std().unwrap();
    assert_ne!(one.rng.next_u64(), two.rng.next_u64());
}

#[test]
fn a_deregistered_interface_closes_its_workers() {
    let queue = Arc::new(maitake_sync::WaitQueue::new());
    let mut router: Router<TestInterface, StdRng, 4, 4, 0> = Router::new(StdRng::seed_from_u64(0));
    let ident = router.register_interface(sink()).unwrap();
    router.set_interface_closer(ident, Closer { queue: queue.clone() });
    assert!(!queue.is_closed());
    router.deregister_interface(ident).unwrap();
    assert!(queue.is_closed());
}

#[test]
fn a_repeated_claim_is_the_same_claim() {
    let mut s = State::new();
    let mut tokens = Count(0);
    s.register_interface(sink(), 0).unwrap();
    let a = s.request_node_claim(1, 50, 7, 0, &mut tokens).unwrap();
    assert_eq!(a.expires_seconds, 30);
    // First repeat, then a repeat of the repeat
    for (now, left) in [(secs(1) + 1, 28), (secs(20), 10), (secs(29), 1)] {
        let b = s.request_node_claim(1, 50, 7, now, &mut tokens).unwrap();
        assert_eq!((b.node_id, b.net_id, b.refresh_token), (50, 1, a.refresh_token));
        assert_eq!(b.expires_seconds, left);
        assert_eq!(
            s.request_node_claim(1, 50, 8, now, &mut tokens).unwrap_err(),
            AddressClaimError::Conflict
        );
        assert!(s.is_node_claimed(1, 50, now));
        assert_eq!(s.node_claims.entries.len(), 1);
    }
    // A refreshed claim is as exclusive as a new one
    let c = s.refresh_node_claim(1, 50, a.refresh_token, secs(29), 60).unwrap();
    let d = s.request_node_claim(1, 50, 7, secs(100), &mut tokens).unwrap();
    assert_eq!((d.refresh_token, d.expires_seconds), (c.refresh_token, 49));
    assert_eq!(
        s.request_node_claim(1, 50, 8, secs(100), &mut tokens).unwrap_err(),
        AddressClaimError::Conflict
    );
    assert_eq!(tokens.0, 1);
}

#[test]
fn an_interface_is_activated_by_its_first_frame_and_once() {
    type TestRouter = Router<TestInterface, StdRng, 2, 0, 0>;
    let mut stack: NetStack<TestRouter> =
        NetStack::new_with_profile(Router::new(StdRng::seed_from_u64(0)));
    let ident = stack.profile.register_interface(sink()).unwrap();
    let mut processor = RouterFrameProcessor::new(6);
    let mut buf = vec![0u8; 64];
    let len = wire_frames::encode_frame_ty(&mut buf, &header(9, 9, 5), &[42]).unwrap();
    buf.truncate(len);
    stack.profile.set_interface_state(ident, InterfaceState::Inactive).unwrap();
    assert!(processor.process_frame(&buf, &mut stack, ident));
    let active = InterfaceState::Active { net_id: 6, node_id: 1 };
    assert_eq!(stack.profile.interface_state(ident), Some(active));
    assert!(!processor.process_frame(&buf, &mut stack, ident));
    // Inactive again: nothing happens before a reset
    stack.profile.set_interface_state(ident, InterfaceState::Inactive).unwrap();
    assert!(!processor.process_frame(&buf, &mut stack, ident));
    assert_eq!(stack.profile.interface_state(ident), Some(InterfaceState::Inactive));
    <RouterFrameProcessor as FrameProcessor<TestRouter>>::reset(&mut processor);
    assert!(processor.process_frame(&buf, &mut stack, ident));
    assert_eq!(stack.profile.interface_state(ident), Some(active));
}

#[test]
fn a_committed_refresh_answers_by_token() {
    let mut s: State = RouterState::new_bridge(sink());
    let mut tokens = Count(0);
    let down = s.register_interface_pending(sink()).unwrap();
    s.reassign_interface_net_id(down, 7).unwrap();
    let a = s.register_delegated_seed_net(7, &parent(20, 62), 0, &mut tokens).unwrap();
    let mut fresh = parent(20, 62);
    fresh.expires_seconds = 100;
    let b = s.commit_delegated_refresh(7, a.refresh_token, &fresh, secs(1), 99).unwrap();
    // However often they are asked, the answers are the same
    for (now, left) in [(secs(1), 100), (secs(2) + 1, 99), (secs(100), 1)] {
        for _ in 0..2 {
            let replayed = s.prepare_delegated_refresh(7, 20, a.refresh_token, now).unwrap();
            let mut expected = b;
            expected.expires_seconds = left;
            assert_eq!(replayed, DelegatedRefreshPreparation::Replay(expected));
            assert_eq!(
                s.prepare_delegated_refresh(7, 20, b.refresh_token, now).unwrap(),
                DelegatedRefreshPreparation::Forward(fresh)
            );
            assert_eq!(
                s.prepare_delegated_refresh(7, 20, [3; 8], now).unwrap_err(),
                SeedRefreshError::BadRequest
            );
            assert_eq!(
                s.prepare_delegated_refresh(8, 20, b.refresh_token, now).unwrap_err(),
                SeedRefreshError::BadRequest
            );
        }
    }
    assert_eq!(
        s.prepare_delegated_refresh(7, 20, b.refresh_token, secs(101)).unwrap_err(),
        SeedRefreshError::AlreadyExpired
    );
}

#[test]
fn a_refreshed_claim_can_be_asked_for_again() {
    let mut s = State::new();
    let mut tokens = Count(0);
    s.register_interface(sink(), 0).unwrap();
    let a = s.request_node_claim(1, 50, 7, 0, &mut tokens).unwrap();
    let b = s.refresh_node_claim(1, 50, a.refresh_token, secs(10), 60).unwrap();
    assert_eq!((b.expires_seconds, b.refresh_token), (120, token_to_bytes(60)));
    let c = s.refresh_node_claim(1, 50, a.refresh_token, secs(10), 61).unwrap();
    assert_eq!((c.expires_seconds, c.refresh_token), (120, b.refresh_token));
    // Seconds are rounded up, and the claim is not extended
    let d = s.refresh_node_claim(1, 50, a.refresh_token, secs(20) + 1, 62).unwrap();
    assert_eq!((d.expires_seconds, d.refresh_token), (110, b.refresh_token));
    assert!(s.is_node_claimed(1, 50, secs(130) - 1));
    assert!(!s.is_node_claimed(1, 50, secs(130)));
}

#[test]
fn a_broadcast_reports_its_last_failure() {
    let mut s: RouterState<TestInterface, 3, 0, 0> = RouterState::new();
    let log: Log = Arc::new(Mutex::new(Vec::new()));
    let from = s.register_interface(sink(), 0).unwrap();
    s.register_interface(logging_sink(&log, 40), 0).unwrap();
    s.register_interface(logging_sink(&log, 50), 0).unwrap();
    let mut hdr = header(0, 0, 5);
    hdr.dst.port_id = 255;
    hdr.any_all = Some(AnyAllAppendix { key: Key([1; 8]), nash: None });
    assert_eq!(
        s.send_raw(&hdr, &[0; 200], from, 0),
        Err(InterfaceSendError::PacketTooBig { mtu: 50 })
    );
}

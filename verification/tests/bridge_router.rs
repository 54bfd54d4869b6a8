use ergot::interface_manager::profiles::router::{Router, UPSTREAM_IDENT};
use ergot::interface_manager::{
    Interface, InterfaceSendError, InterfaceSink, Payload, InterfaceState, Profile,
};
use ergot::{Address, AnyAllAppendix, FrameKind, Header, Key, ProtocolError, TrafficClass};
use rand::SeedableRng;
use std::sync::{Arc, Mutex};

// --- Mock sink that records sends ---

#[derive(Clone)]
struct RecordingSink {
    log: Arc<Mutex<Vec<String>>>,
    label: &'static str,
    fail: bool,
}

impl RecordingSink {
    fn new(label: &'static str, log: Arc<Mutex<Vec<String>>>) -> Self {
        Self { log, label, fail: false }
    }

    /// A sink whose queue is permanently "full": every send is recorded and
    /// then refused, which `EdgePort` surfaces as `InterfaceFull`.
    fn new_failing(label: &'static str, log: Arc<Mutex<Vec<String>>>) -> Self {
        Self { log, label, fail: true }
    }

    fn record(&self, what: &str, hdr: &Header) -> Result<(), ()> {
        self.log.lock().unwrap().push(format!("{}:{}:{:?}", self.label, what, hdr.dst));
        if self.fail {
            Err(())
        } else {
            Ok(())
        }
    }
}

impl InterfaceSink for RecordingSink {
    fn sent(_: Self, _: Self, _: Header, _: Payload, _: bool) -> bool {
        unreachable!("only a specification")
    }
    fn spec_mtu(&self) -> u16 {
        unreachable!("only a specification")
    }
    fn mtu(&self) -> u16 {
        2048
    }
    fn send_ty(&mut self, hdr: &Header, _body: &[u8]) -> Result<(), ()> {
        self.record("send_ty", hdr)
    }
    fn send_raw(&mut self, hdr: &Header, _body: &[u8]) -> Result<(), ()> {
        self.record("send_raw", hdr)
    }
    fn send_err(&mut self, hdr: &Header, _err: ProtocolError) -> Result<(), ()> {
        self.record("send_err", hdr)
    }
}

struct MockInterface;
impl Interface for MockInterface {
    type Sink = RecordingSink;
}

type TestRouter = Router<MockInterface, rand::rngs::StdRng, 4, 8, 0>;

fn body_1234() -> Vec<u8> {
    postcard::to_stdvec(&1234u64).unwrap()
}

fn make_bridge(log: &Arc<Mutex<Vec<String>>>) -> TestRouter {
    Router::new_bridge(
        rand::rngs::StdRng::from_seed([0u8; 32]),
        RecordingSink::new("upstream", log.clone()),
    )
}

fn register_downstream(router: &mut TestRouter, sink: RecordingSink, net_id: u16) -> u8 {
    let ident = router.register_interface_pending(sink).unwrap();
    router.reassign_interface_net_id(ident, net_id).unwrap();
    ident
}

fn make_hdr(src_net: u16, dst_net: u16, dst_node: u8, dst_port: u8) -> Header {
    Header {
        src: Address { network_id: src_net, node_id: 0, port_id: 0 },
        dst: Address { network_id: dst_net, node_id: dst_node, port_id: dst_port },
        any_all: None,
        kind: FrameKind::endpoint_req(),
        class: TrafficClass::Normal,
        ttl: 16,
    }
}

fn make_broadcast_hdr() -> Header {
    Header {
        src: Address { network_id: 0, node_id: 0, port_id: 0 },
        dst: Address { network_id: 0, node_id: 0, port_id: 255 },
        any_all: Some(AnyAllAppendix { key: Key(*b"TESTTEST"), nash: None }),
        kind: FrameKind::topic_msg(),
        class: TrafficClass::Normal,
        ttl: 16,
    }
}

// --- Bridge construction ---

#[test]
fn bridge_has_upstream() {
    let log = Arc::new(Mutex::new(Vec::new()));
    let router = make_bridge(&log);
    assert!(router.has_upstream());
}

#[test]
fn root_has_no_upstream() {
    let router: TestRouter = Router::new(rand::rngs::StdRng::from_seed([0u8; 32]));
    assert!(!router.has_upstream());
}

#[test]
fn bridge_upstream_starts_down() {
    let log = Arc::new(Mutex::new(Vec::new()));
    let mut router = make_bridge(&log);
    let state = router.interface_state(UPSTREAM_IDENT);
    assert!(matches!(state, Some(InterfaceState::Down)));
}

#[test]
fn bridge_set_upstream_state() {
    let log = Arc::new(Mutex::new(Vec::new()));
    let mut router = make_bridge(&log);

    // Transition to Inactive then Active
    router
        .set_interface_state(UPSTREAM_IDENT, InterfaceState::Inactive).unwrap();
    assert!(matches!(
        router.interface_state(UPSTREAM_IDENT),
        Some(InterfaceState::Inactive)
    ));

    router
        .set_interface_state(
            UPSTREAM_IDENT,
            InterfaceState::Active {
                net_id: 5,
                node_id: 2,
            },
        ).unwrap();
    assert!(matches!(
        router.interface_state(UPSTREAM_IDENT),
        Some(InterfaceState::Active { net_id: 5, .. })
    ));
}

// --- Unicast routing ---

#[test]
fn bridge_routes_known_downstream() {
    let log = Arc::new(Mutex::new(Vec::new()));
    let mut router = make_bridge(&log);

    // Activate upstream so sends work
    router
        .set_interface_state(
            UPSTREAM_IDENT,
            InterfaceState::Active {
                net_id: 10,
                node_id: 2,
            },
        ).unwrap();

    // Register downstream with net_id=1
    register_downstream(&mut router, RecordingSink::new("down0", log.clone()), 1);

    // Send to net_id=1, node=2 — should go to downstream, NOT upstream
    let hdr = make_hdr(0, 1, 2, 5);
    router.send(&hdr, &[42]).unwrap();

    let entries = log.lock().unwrap();
    assert_eq!(entries.len(), 1);
    assert!(
        entries[0].starts_with("down0:"),
        "expected downstream, got: {}",
        entries[0]
    );
}

#[test]
fn bridge_forwards_unknown_to_upstream() {
    let log = Arc::new(Mutex::new(Vec::new()));
    let mut router = make_bridge(&log);

    // Activate upstream
    router
        .set_interface_state(
            UPSTREAM_IDENT,
            InterfaceState::Active {
                net_id: 10,
                node_id: 2,
            },
        ).unwrap();

    // Register downstream
    register_downstream(&mut router, RecordingSink::new("down0", log.clone()), 1);

    // Send to net_id=99 — unknown downstream, should go upstream
    let hdr = make_hdr(0, 99, 2, 5);
    router.send(&hdr, &[42]).unwrap();

    let entries = log.lock().unwrap();
    assert_eq!(entries.len(), 1);
    assert!(
        entries[0].starts_with("upstream:"),
        "expected upstream, got: {}",
        entries[0]
    );
}

#[test]
fn root_router_no_upstream_fallback() {
    let log = Arc::new(Mutex::new(Vec::new()));
    let mut router: TestRouter = Router::new(rand::rngs::StdRng::from_seed([0u8; 32]));

    router
        .register_interface(RecordingSink::new("down0", log.clone())).unwrap();

    // Send to unknown net_id — should fail (no upstream)
    let hdr = make_hdr(0, 99, 2, 5);
    let result = router.send(&hdr, &[42]);
    assert_eq!(result, Err(InterfaceSendError::NoRouteToDest));
}

// --- Broadcast ---

#[test]
fn bridge_broadcast_includes_upstream() {
    let log = Arc::new(Mutex::new(Vec::new()));
    let mut router = make_bridge(&log);

    router
        .set_interface_state(
            UPSTREAM_IDENT,
            InterfaceState::Active {
                net_id: 10,
                node_id: 2,
            },
        ).unwrap();

    register_downstream(&mut router, RecordingSink::new("down0", log.clone()), 1);
    register_downstream(&mut router, RecordingSink::new("down1", log.clone()), 2);

    let hdr = make_broadcast_hdr();
    router.send(&hdr, &[42]).unwrap();

    let entries = log.lock().unwrap();
    // Should go to down0 + down1 + upstream = 3
    assert_eq!(entries.len(), 3, "entries: {:?}", *entries);

    let labels: Vec<&str> = entries
        .iter()
        .map(|e| e.split(':').next().unwrap())
        .collect();
    assert!(labels.contains(&"down0"));
    assert!(labels.contains(&"down1"));
    assert!(labels.contains(&"upstream"));
}

#[test]
fn bridge_broadcast_from_upstream_skips_upstream() {
    let log = Arc::new(Mutex::new(Vec::new()));
    let mut router = make_bridge(&log);

    router
        .set_interface_state(
            UPSTREAM_IDENT,
            InterfaceState::Active {
                net_id: 10,
                node_id: 2,
            },
        ).unwrap();

    register_downstream(&mut router, RecordingSink::new("down0", log.clone()), 1);
    register_downstream(&mut router, RecordingSink::new("down1", log.clone()), 2);

    // Raw broadcast from upstream (source=UPSTREAM_IDENT)
    let hdr = Header {
        src: Address {
            network_id: 10,
            node_id: 1,
            port_id: 0,
        },
        dst: Address {
            network_id: 0,
            node_id: 0,
            port_id: 255,
        },
        any_all: Some(AnyAllAppendix {
            key: Key(*b"TESTTEST"),
            nash: None,
        }),
        kind: FrameKind::topic_msg(),
        class: TrafficClass::Normal,
        ttl: 16,
    };

    router.send_raw(&hdr, &[1, 2, 3], UPSTREAM_IDENT).unwrap();

    let entries = log.lock().unwrap();
    // Should go to down0 + down1 only, NOT back to upstream
    assert_eq!(entries.len(), 2, "entries: {:?}", *entries);

    let labels: Vec<&str> = entries
        .iter()
        .map(|e| e.split(':').next().unwrap())
        .collect();
    assert!(labels.contains(&"down0"));
    assert!(labels.contains(&"down1"));
    assert!(!labels.contains(&"upstream"));
}

// --- Routing loop ---

#[test]
fn bridge_raw_from_upstream_no_loop() {
    let log = Arc::new(Mutex::new(Vec::new()));
    let mut router = make_bridge(&log);

    router
        .set_interface_state(
            UPSTREAM_IDENT,
            InterfaceState::Active {
                net_id: 10,
                node_id: 2,
            },
        ).unwrap();

    // Raw unicast from upstream to unknown net_id — should NOT go back upstream
    let hdr = Header {
        src: Address {
            network_id: 10,
            node_id: 1,
            port_id: 0,
        },
        dst: Address {
            network_id: 99,
            node_id: 2,
            port_id: 5,
        },
        any_all: None,
        kind: FrameKind::endpoint_req(),
        class: TrafficClass::Normal,
        ttl: 16,
    };

    let result = router.send_raw(&hdr, &[1, 2, 3], UPSTREAM_IDENT);
    assert_eq!(result, Err(InterfaceSendError::RoutingLoop));
}

// --- Downstream to downstream stays local ---

#[test]
fn bridge_downstream_to_downstream_no_upstream() {
    let log = Arc::new(Mutex::new(Vec::new()));
    let mut router = make_bridge(&log);

    router
        .set_interface_state(
            UPSTREAM_IDENT,
            InterfaceState::Active {
                net_id: 10,
                node_id: 2,
            },
        ).unwrap();

    let id0 = register_downstream(&mut router, RecordingSink::new("down0", log.clone()), 1);
    // net_id=2
    register_downstream(&mut router, RecordingSink::new("down1", log.clone()), 2);

    // Raw packet from down0 destined to net_id=2 (down1)
    let hdr = Header {
        src: Address {
            network_id: 1,
            node_id: 2,
            port_id: 3,
        },
        dst: Address {
            network_id: 2,
            node_id: 2,
            port_id: 5,
        },
        any_all: None,
        kind: FrameKind::endpoint_req(),
        class: TrafficClass::Normal,
        ttl: 16,
    };

    router.send_raw(&hdr, &[1, 2, 3], id0).unwrap();

    let entries = log.lock().unwrap();
    assert_eq!(entries.len(), 1);
    assert!(
        entries[0].starts_with("down1:"),
        "should route to down1, not upstream. got: {}",
        entries[0]
    );
}

// --- send_err through upstream ---

#[test]
fn bridge_send_err_forwards_upstream() {
    let log = Arc::new(Mutex::new(Vec::new()));
    let mut router = make_bridge(&log);

    router
        .set_interface_state(
            UPSTREAM_IDENT,
            InterfaceState::Active {
                net_id: 10,
                node_id: 2,
            },
        ).unwrap();

    register_downstream(&mut router, RecordingSink::new("down0", log.clone()), 1);

    // Error to unknown net_id — should go upstream
    let hdr = Header {
        src: Address {
            network_id: 0,
            node_id: 0,
            port_id: 1,
        },
        dst: Address {
            network_id: 99,
            node_id: 2,
            port_id: 5,
        },
        any_all: None,
        kind: FrameKind::protocol_error(),
        class: TrafficClass::Normal,
        ttl: 16,
    };

    router
        .send_err(&hdr, ProtocolError::NsseNoRoute, None).unwrap();

    let entries = log.lock().unwrap();
    assert_eq!(entries.len(), 1);
    assert!(entries[0].starts_with("upstream:"));
}

// --- Broadcast: genuine failures vs no audience ---
//
// Conformance ("Broadcast Messages"): a broadcast reaching nobody is the
// benign NoRouteToDest/RoutingLoop class (the net stack maps it to a
// successful no-op), but a genuine delivery failure to an interface that
// exists and was attempted (full queue) must surface as that failure.

#[test]
fn broadcast_full_everywhere_reports_genuine_failure() {
    // Down upstream (benign: no recipient) + one Active downstream whose
    // queue is "full": nobody got the message AND an existing interface
    // genuinely failed — the failure must win over the benign default.
    let log = Arc::new(Mutex::new(Vec::new()));
    let mut router = make_bridge(&log);
    register_downstream(
        &mut router,
        RecordingSink::new_failing("down0", log.clone()),
        1,
    );

    let res = router.send(&make_broadcast_hdr(), &body_1234());
    assert_eq!(res, Err(InterfaceSendError::InterfaceFull));
}

#[test]
fn broadcast_partial_success_is_ok() {
    // One full interface + one healthy one: reaching at least one recipient
    // is success.
    let log = Arc::new(Mutex::new(Vec::new()));
    let mut router = make_bridge(&log);
    register_downstream(
        &mut router,
        RecordingSink::new_failing("down0", log.clone()),
        1,
    );
    register_downstream(&mut router, RecordingSink::new("down1", log.clone()), 2);

    router.send(&make_broadcast_hdr(), &body_1234()).unwrap();
}

#[test]
fn broadcast_no_interfaces_is_benign_no_route() {
    // Root router with no interfaces at all: nobody to deliver to — the
    // benign class, NOT a genuine failure.
    let mut router: TestRouter = Router::new(rand::rngs::StdRng::from_seed([0u8; 32]));
    let res = router.send(&make_broadcast_hdr(), &body_1234());
    assert_eq!(res, Err(InterfaceSendError::NoRouteToDest));
}

#[test]
fn broadcast_raw_full_everywhere_reports_genuine_failure() {
    // Same rule on the forwarded-broadcast (send_raw) leg: a broadcast from
    // upstream that fails on every downstream queue reports the failure.
    let log = Arc::new(Mutex::new(Vec::new()));
    let mut router = make_bridge(&log);
    register_downstream(
        &mut router,
        RecordingSink::new_failing("down0", log.clone()),
        1,
    );

    let hdr = Header {
        src: Address {
            network_id: 10,
            node_id: 1,
            port_id: 0,
        },
        dst: Address {
            network_id: 0,
            node_id: 0,
            port_id: 255,
        },
        any_all: Some(AnyAllAppendix {
            key: Key(*b"TESTTEST"),
            nash: None,
        }),
        kind: FrameKind::topic_msg(),
        class: TrafficClass::Normal,
        ttl: 16,
    };

    let res = router.send_raw(&hdr, &[1, 2, 3], UPSTREAM_IDENT);
    assert_eq!(res, Err(InterfaceSendError::InterfaceFull));
}

use ergot::conformance::mocks::{
    test_stack, ExpectedSend, ExpectedSendErr, ExpectedSendRaw, MockProfile,
};
use ergot::interface_manager::{InterfaceSendError, InterfaceState, Profile, SetStateError};
use ergot::socket::borrow::Socket;
use ergot::socket::Attributes;
use ergot::{
    Address, AnyAllAppendix, FrameKind, Header, Key, NetStackSendError, ProtocolError,
    TrafficClass, DEFAULT_TTL,
};

fn unicast_specific_port() -> Header {
    Header {
        src: Address::unknown(),
        dst: Address { network_id: 10, node_id: 10, port_id: 10 },
        any_all: None,
        kind: FrameKind::endpoint_req(),
        class: TrafficClass::Normal,
        ttl: DEFAULT_TTL,
    }
}

/// A broadcast header (`*:*.255`) carrying the Any/All appendix that broadcast
/// delivery requires.
fn broadcast_hdr() -> Header {
    Header {
        src: Address::unknown(),
        dst: Address { network_id: 10, node_id: 10, port_id: 255 },
        any_all: Some(AnyAllAppendix { key: Key(*b"TESTTEST"), nash: None }),
        kind: FrameKind::topic_msg(),
        class: TrafficClass::Normal,
        ttl: DEFAULT_TTL,
    }
}

/// One send through a stack without sockets, whose profile answers as told.
fn send_case(
    hdr: Header,
    profile: Result<(), InterfaceSendError>,
    stack_result: Result<(), NetStackSendError>,
) {
    let data = postcard::to_stdvec(&1234u64).unwrap();
    let mut stack = test_stack();
    stack.profile.add_exp_send(ExpectedSend { hdr, data: data.clone(), retval: profile });
    assert_eq!(stack.send_ty(&hdr, &data), stack_result);
    assert!(stack.profile.assert_all_empty());
}

#[test]
fn no_sockets_interface_takes() {
    send_case(unicast_specific_port(), Ok(()), Ok(()));
}

#[test]
fn no_sockets_no_iroute() {
    send_case(
        unicast_specific_port(),
        Err(InterfaceSendError::NoRouteToDest),
        Err(NetStackSendError::InterfaceSend(InterfaceSendError::NoRouteToDest)),
    );
}

#[test]
fn no_sockets_interface_full() {
    send_case(
        unicast_specific_port(),
        Err(InterfaceSendError::InterfaceFull),
        Err(NetStackSendError::InterfaceSend(InterfaceSendError::InterfaceFull)),
    );
}

#[test]
fn no_sockets_interface_local() {
    send_case(
        unicast_specific_port(),
        Err(InterfaceSendError::DestinationLocal),
        Err(NetStackSendError::NoRoute),
    );
}

#[test]
fn bcast_interface_takes() {
    send_case(broadcast_hdr(), Ok(()), Ok(()));
}

#[test]
fn bcast_no_audience_no_iroute() {
    send_case(broadcast_hdr(), Err(InterfaceSendError::NoRouteToDest), Ok(()));
}

#[test]
fn bcast_no_audience_routing_loop() {
    send_case(broadcast_hdr(), Err(InterfaceSendError::RoutingLoop), Ok(()));
}

#[test]
fn bcast_genuine_failure_errors() {
    send_case(
        broadcast_hdr(),
        Err(InterfaceSendError::InterfaceFull),
        Err(NetStackSendError::NoRoute),
    );
}

/// A protocol-error send addressed to a broadcast/reserved destination port
/// (`*:*.255`) MUST NOT panic.
#[test]
fn send_err_to_broadcast_port_does_not_panic() {
    let mut stack = test_stack();
    let hdr = Header {
        src: Address::unknown(),
        dst: Address { network_id: 10, node_id: 10, port_id: 255 },
        any_all: None,
        kind: FrameKind::protocol_error(),
        class: TrafficClass::Normal,
        ttl: DEFAULT_TTL,
    };
    let res = stack.send_err(&hdr, ProtocolError::IseNoRouteToDest, None);
    assert_eq!(res, Err(NetStackSendError::NoRoute));
    assert!(stack.profile.assert_all_empty());
}

/// A protocol-error frame handed to a normal (non-error) send path must be
/// rejected, not panic: error frames belong on the `send_err` path.
#[test]
fn send_ty_with_protocol_error_kind_does_not_panic() {
    let mut stack = test_stack();
    let hdr = Header {
        src: Address::unknown(),
        dst: Address { network_id: 10, node_id: 10, port_id: 10 },
        any_all: None,
        kind: FrameKind::protocol_error(),
        class: TrafficClass::Normal,
        ttl: DEFAULT_TTL,
    };
    let res = stack.send_ty(&hdr, &postcard::to_stdvec(&1234u64).unwrap());
    assert_eq!(res, Err(NetStackSendError::NoRoute));
    assert!(stack.profile.assert_all_empty());
}

#[test]
fn broadcast_without_a_key_is_refused() {
    let mut stack = test_stack();
    let mut hdr = broadcast_hdr();
    hdr.any_all = None;
    assert_eq!(stack.send_ty(&hdr, &[1]), Err(NetStackSendError::AllPortMissingKey));
    assert!(stack.profile.assert_all_empty());
}

fn socket(kind: FrameKind, key: &[u8; 8], discoverable: bool) -> Socket {
    Socket::new(Key(*key), Attributes { kind, discoverable }, 512, 128, None)
}

fn local(port_id: u8, key: Option<&[u8; 8]>) -> Header {
    let mut hdr = unicast_specific_port();
    hdr.dst = Address { network_id: 0, node_id: 0, port_id };
    hdr.any_all = key.map(|k| AnyAllAppendix { key: Key(*k), nash: None });
    hdr
}

#[test]
fn local_unicast_never_reaches_the_profile() {
    let mut stack = test_stack();
    let port = stack.attach_socket(socket(FrameKind::endpoint_req(), b"SOCKET_1", true)).ok().unwrap();
    assert_eq!(port, 1);
    assert_eq!(stack.send_ty(&local(1, None), &[1]), Ok(()));
    assert_eq!(stack.send_ty(&local(2, None), &[1]), Err(NetStackSendError::NoRoute));
    assert!(stack.profile.assert_all_empty());
}

#[test]
fn wrong_kind_on_a_port_is_refused() {
    let mut stack = test_stack();
    assert_eq!(
        stack.attach_socket(socket(FrameKind::topic_msg(), b"SOCKET_1", true)).ok(),
        Some(1)
    );
    assert_eq!(stack.send_ty(&local(1, None), &[1]), Err(NetStackSendError::WrongPortKind));
}

#[test]
fn any_port_looks_for_the_key() {
    let mut stack = test_stack();
    assert_eq!(stack.send_ty(&local(0, None), &[1]), Err(NetStackSendError::AnyPortMissingKey));
    assert_eq!(
        stack.send_ty(&local(0, Some(b"SOCKET_1")), &[1]),
        Err(NetStackSendError::NoRoute)
    );
    let _ = stack.attach_socket(socket(FrameKind::endpoint_req(), b"SOCKET_1", true));
    let _ = stack.attach_socket(socket(FrameKind::endpoint_req(), b"SOCKET_2", false));
    assert_eq!(stack.send_ty(&local(0, Some(b"SOCKET_1")), &[1]), Ok(()));
    // One that does not want to be found is not
    assert_eq!(
        stack.send_ty(&local(0, Some(b"SOCKET_2")), &[1]),
        Err(NetStackSendError::NoRoute)
    );
    let _ = stack.attach_socket(socket(FrameKind::endpoint_req(), b"SOCKET_1", true));
    assert_eq!(
        stack.send_ty(&local(0, Some(b"SOCKET_1")), &[1]),
        Err(NetStackSendError::AnyPortNotUnique)
    );
}

#[test]
fn class_does_not_change_delivery() {
    for class in [
        TrafficClass::Control,
        TrafficClass::Normal,
        TrafficClass::Bulk,
        TrafficClass::Background,
    ] {
        let mut hdr = unicast_specific_port();
        hdr.class = class;
        send_case(hdr, Ok(()), Ok(()));
    }
}

#[test]
fn ports_run_out() {
    let mut stack = test_stack();
    for port in 1..=254u8 {
        let r = stack.attach_socket(socket(FrameKind::endpoint_req(), b"SOCKET_1", true));
        assert_eq!(r.ok(), Some(port));
    }
    let r = stack.attach_socket(socket(FrameKind::endpoint_req(), b"SOCKET_1", true));
    assert!(r.is_err());
    // A port that was given back is used again
    assert!(stack.detach_socket(41).is_some());
    let r = stack.attach_socket(socket(FrameKind::endpoint_req(), b"SOCKET_1", true));
    assert_eq!(r.ok(), Some(42));
    assert!(stack.detach_socket(1000).is_none());
}

#[test]
fn net_stack_errors_are_reported() {
    assert_eq!(NetStackSendError::NoRoute.to_error(), ProtocolError::NsseNoRoute);
    assert_eq!(NetStackSendError::WouldDeadlock.to_error(), ProtocolError::NsseWouldDeadlock);
    assert_eq!(
        NetStackSendError::InterfaceSend(InterfaceSendError::PacketTooBig { mtu: 7 }).to_error(),
        ProtocolError::IsePacketTooBig { mtu: 7 }
    );
}

#[test]
fn mock_profile_notices_what_it_did_not_expect() {
    let mut profile = MockProfile::default();
    let hdr = unicast_specific_port();
    assert_eq!(profile.send(&hdr, &[1]), Err(InterfaceSendError::InternalError));
    assert!(!profile.assert_all_empty());

    let mut profile = MockProfile::default();
    profile.add_exp_send(ExpectedSend { hdr, data: vec![1, 2], retval: Ok(()) });
    assert!(!profile.assert_all_empty());
    assert_eq!(profile.send(&hdr, &[1, 3]), Err(InterfaceSendError::InternalError));
    assert!(!profile.assert_all_empty());

    let mut profile = MockProfile::default();
    let err = ProtocolError::NsseNoRoute;
    profile.add_exp_send_err(ExpectedSendErr { hdr, err, retval: Ok(()) });
    profile.add_exp_send_raw(ExpectedSendRaw {
        hdr: broadcast_hdr(),
        body: vec![5],
        retval: Err(InterfaceSendError::TtlExpired),
    });
    assert_eq!(profile.send_err(&hdr, err, None), Ok(()));
    assert_eq!(
        profile.send_raw(&broadcast_hdr(), &[5], 1),
        Err(InterfaceSendError::TtlExpired)
    );
    assert!(profile.assert_all_empty());
    assert_eq!(profile.interface_state(1), None);
    assert_eq!(
        profile.set_interface_state(1, InterfaceState::Down),
        Err(SetStateError::InterfaceNotFound)
    );
}

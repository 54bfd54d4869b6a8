use std::task::Waker;

use ergot::interface_manager::profiles::direct_edge::DirectEdge;
use ergot::interface_manager::{Interface, InterfaceSink, Payload};
use ergot::socket::borrow::{Response, Socket};
use ergot::socket::{Attributes, SocketSendError};
use ergot::{
    wire_frames, Address, AnyAllAppendix, FrameKind, Header, Key, NetStack, NetStackSendError,
    ProtocolError, TrafficClass, DEFAULT_TTL,
};

struct NoSink;

impl InterfaceSink for NoSink {
    fn sent(_: Self, _: Self, _: Header, _: Payload, _: bool) -> bool {
        unreachable!("only a specification")
    }
    fn spec_mtu(&self) -> u16 {
        unreachable!("only a specification")
    }
    fn mtu(&self) -> u16 {
        0
    }
    fn send_ty(&mut self, _: &Header, _: &[u8]) -> Result<(), ()> {
        Err(())
    }
    fn send_raw(&mut self, _: &Header, _: &[u8]) -> Result<(), ()> {
        Err(())
    }
    fn send_err(&mut self, _: &Header, _: ProtocolError) -> Result<(), ()> {
        Err(())
    }
}

struct NoInterface;

impl Interface for NoInterface {
    type Sink = NoSink;
}

/// A stack whose only interface is down, so that nothing ever leaves it.
fn new_null_stack() -> NetStack<DirectEdge<NoInterface>> {
    NetStack::new_with_profile(DirectEdge::new_target(NoSink))
}

const TEST_TOPIC: Key = Key(*b"TEST_U64");
const STR_TOPIC: Key = Key(*b"TEST_STR");

fn receiver(key: Key, capacity: usize, mtu: u16) -> Socket {
    let attrs = Attributes { kind: FrameKind::topic_msg(), discoverable: true };
    Socket::new(key, attrs, capacity, mtu, None)
}

fn broadcast(key: Key) -> Header {
    Header {
        src: Address::unknown(),
        dst: Address { network_id: 0, node_id: 0, port_id: 255 },
        any_all: Some(AnyAllAppendix { key, nash: None }),
        kind: FrameKind::topic_msg(),
        class: TrafficClass::Normal,
        ttl: DEFAULT_TTL,
    }
}

fn bytes(value: u64) -> Vec<u8> {
    postcard::to_stdvec(&value).unwrap()
}

fn broadcast_u64(
    stack: &mut NetStack<DirectEdge<NoInterface>>,
    value: u64,
) -> Result<(), NetStackSendError> {
    stack.broadcast_local(&broadcast(TEST_TOPIC), &bytes(value))
}

fn try_recv(stack: &mut NetStack<DirectEdge<NoInterface>>, index: usize) -> Option<u64> {
    let socket = &mut stack.sockets[index];
    let grant = socket.poll_recv(Waker::noop())?;
    let value = match grant.try_access() {
        Response::Message(m) => postcard::from_bytes(m.t).ok(),
        Response::Failure(_) => None,
    };
    socket.release(grant);
    value
}

/// An owned typed send delivered to a "borrow" socket must be serialized at the
/// sender's type, never reinterpreted as the socket's message type.
#[test]
fn owned_send_to_borrow_socket_is_type_safe() {
    let mut stack = new_null_stack();
    stack.attach_broadcast_socket(receiver(STR_TOPIC, 512, 128));

    let hdr = broadcast(STR_TOPIC);
    let res = stack.send_ty(&hdr, &bytes(0xDEAD_BEEF_1234_5678u64));
    assert_eq!(res, Ok(()), "unexpected send result: {res:?}");

    // The receiver simply fails to decode the bytes as its own type.
    let grant = stack.sockets[0].poll_recv(Waker::noop()).unwrap();
    match grant.try_access() {
        Response::Message(m) => {
            assert_eq!(m.t, &bytes(0xDEAD_BEEF_1234_5678u64)[..]);
            assert!(postcard::from_bytes::<String>(m.t).is_err());
        }
        Response::Failure(_) => panic!("a message was sent"),
    }
}

/// A broadcast to a subscriber whose bounded queue is full must not be reported as
/// `NoRoute` — the audience exists, the message is just best-effort dropped for it.
/// `NoRoute` is reserved for "no audience at all".
#[test]
fn broadcast_to_full_subscriber_is_not_no_route() {
    let mut stack = new_null_stack();
    // Single-slot subscriber: room for one frame of the MTU.
    stack.attach_broadcast_socket(receiver(TEST_TOPIC, 66, 64));

    // Fill the one slot.
    assert_eq!(broadcast_u64(&mut stack, 1), Ok(()));

    // Second broadcast: the subscriber is full, but it still exists.
    let res = broadcast_u64(&mut stack, 2);
    assert_eq!(
        res,
        Ok(()),
        "a full subscriber is still an audience, not a missing route, got {res:?}"
    );
    // The message was dropped for it.
    assert_eq!(try_recv(&mut stack, 0), Some(1));
    assert_eq!(try_recv(&mut stack, 0), None);
}

/// Re-subscribing a socket after it was detached is fine.
#[test]
fn borrow_reattach_after_handle_drop() {
    let mut stack = new_null_stack();
    let mut rx = receiver(TEST_TOPIC, 512, 128);
    for _ in 0..3 {
        stack.attach_broadcast_socket(rx);
        assert_eq!(stack.sockets.len(), 1);
        rx = stack.detach_socket(0).unwrap();
        assert_eq!(stack.sockets.len(), 0);
    }
}

/// A socket that is gone leaves no trace in the stack.
#[test]
fn forgotten_handle_does_not_dangle() {
    let mut stack = new_null_stack();
    {
        stack.attach_broadcast_socket(receiver(TEST_TOPIC, 512, 128));
        drop(stack.detach_socket(0));
    }
    let send = broadcast_u64(&mut stack, 999);
    assert_eq!(send, Err(NetStackSendError::NoRoute));
}

#[test]
fn sockets() {
    let mut stack = new_null_stack();

    assert_eq!(broadcast_u64(&mut stack, 123), Err(NetStackSendError::NoRoute));

    stack.attach_broadcast_socket(receiver(TEST_TOPIC, 512, 128));
    {
        stack.attach_broadcast_socket(receiver(TEST_TOPIC, 512, 128));
        assert_eq!(broadcast_u64(&mut stack, 1234), Ok(()));
        assert_eq!(try_recv(&mut stack, 0), Some(1234));
        assert_eq!(try_recv(&mut stack, 1), Some(1234));
        drop(stack.detach_socket(1));
    }

    // Sending after dropping the second socket is fine
    assert_eq!(broadcast_u64(&mut stack, 12345), Ok(()));
    assert_eq!(try_recv(&mut stack, 0), Some(12345));

    stack.attach_broadcast_socket(receiver(TEST_TOPIC, 512, 128));
    assert_eq!(broadcast_u64(&mut stack, 123456), Ok(()));
    assert_eq!(try_recv(&mut stack, 0), Some(123456));
    assert_eq!(try_recv(&mut stack, 1), Some(123456));

    // drop the first one
    drop(stack.detach_socket(0));
    assert_eq!(broadcast_u64(&mut stack, 1234567), Ok(()));
    assert_eq!(try_recv(&mut stack, 0), Some(1234567));

    // make a new one
    stack.attach_broadcast_socket(receiver(TEST_TOPIC, 512, 128));
    assert_eq!(broadcast_u64(&mut stack, 12345678), Ok(()));
    assert_eq!(try_recv(&mut stack, 0), Some(12345678));
    assert_eq!(try_recv(&mut stack, 1), Some(12345678));
    drop(stack.detach_socket(0));

    assert_eq!(broadcast_u64(&mut stack, 123456789), Ok(()));
    assert_eq!(try_recv(&mut stack, 0), Some(123456789));
    let socket = stack.detach_socket(0).unwrap();
    assert_eq!(broadcast_u64(&mut stack, 1234567890), Err(NetStackSendError::NoRoute));

    // The same socket once more
    stack.attach_broadcast_socket(socket);
    assert_eq!(broadcast_u64(&mut stack, 12345678901), Ok(()));
    assert_eq!(try_recv(&mut stack, 0), Some(12345678901));
    let socket = stack.detach_socket(0).unwrap();
    assert_eq!(broadcast_u64(&mut stack, 123456789012), Err(NetStackSendError::NoRoute));

    stack.attach_broadcast_socket(socket);
    assert_eq!(broadcast_u64(&mut stack, 1234567890123), Ok(()));
    assert_eq!(try_recv(&mut stack, 0), Some(1234567890123));
    drop(stack.detach_socket(0));
    assert_eq!(broadcast_u64(&mut stack, 123456789012), Err(NetStackSendError::NoRoute));
}

#[test]
fn messages_come_out_as_they_went_in() {
    let mut socket = receiver(TEST_TOPIC, 512, 128);
    let mut hdr = broadcast(TEST_TOPIC);
    hdr.dst.port_id = 9;
    hdr.any_all = None;
    assert_eq!(socket.recv_bor(hdr, &[1, 2, 3]), Ok(()));
    assert_eq!(socket.recv_raw(&[4, 5], hdr), Ok(()));
    let mut err_hdr = hdr;
    err_hdr.kind = FrameKind::protocol_error();
    assert!(socket.recv_err(err_hdr, ProtocolError::NsseNoRoute));

    let first = socket.poll_recv(Waker::noop()).unwrap();
    assert_eq!(first.hdr(), hdr);
    assert!(matches!(first.try_access(), Response::Message(m) if m.t == &[1, 2, 3]));
    // One message at a time
    assert!(socket.poll_recv(Waker::noop()).is_none());
    socket.release(first);
    let second = socket.poll_recv(Waker::noop()).unwrap();
    assert!(matches!(second.try_access(), Response::Message(m) if m.t == &[4, 5]));
    socket.release(second);
    let third = socket.poll_recv(Waker::noop()).unwrap();
    assert_eq!(third.hdr(), err_hdr);
    assert!(matches!(
        third.try_access(),
        Response::Failure(m) if m.t == ProtocolError::NsseNoRoute
    ));
    socket.release(third);
    assert!(socket.poll_recv(Waker::noop()).is_none());
}

#[test]
fn frames_that_do_not_fit_are_refused() {
    // The MTU limits what originates here, the queue limits everything
    let mut socket = receiver(TEST_TOPIC, 100, 32);
    let mut hdr = broadcast(TEST_TOPIC);
    hdr.dst.port_id = 9;
    hdr.any_all = None;
    assert_eq!(socket.recv_bor(hdr, &[0; 40]), Err(SocketSendError::NoSpace));
    assert_eq!(socket.recv_raw(&[0; 40], hdr), Ok(()));
    assert_eq!(socket.recv_raw(&[0; 200], hdr), Err(SocketSendError::NoSpace));
    assert_eq!(socket.recv_raw(&[0; 70_000], hdr), Err(SocketSendError::NoSpace));
    let mut narrow = receiver(TEST_TOPIC, 100, 3);
    hdr.kind = FrameKind::protocol_error();
    assert!(!narrow.recv_err(hdr, ProtocolError::NsseNoRoute));
}

struct Flag(std::sync::atomic::AtomicBool);

impl std::task::Wake for Flag {
    fn wake(self: std::sync::Arc<Self>) {
        self.0.store(true, std::sync::atomic::Ordering::SeqCst);
    }
}

#[test]
fn a_message_wakes_whoever_waits_for_it() {
    let flag = std::sync::Arc::new(Flag(std::sync::atomic::AtomicBool::new(false)));
    let waker = Waker::from(flag.clone());
    let mut socket = receiver(TEST_TOPIC, 512, 128);
    assert!(socket.poll_recv(&waker).is_none());
    assert!(!flag.0.load(std::sync::atomic::Ordering::SeqCst));
    // Waiting again with the same waker wakes nobody
    assert!(socket.poll_recv(&waker).is_none());
    assert!(!flag.0.load(std::sync::atomic::Ordering::SeqCst));
    assert_eq!(socket.recv_bor(broadcast(TEST_TOPIC), &[1]), Ok(()));
    assert!(flag.0.load(std::sync::atomic::Ordering::SeqCst));
}

#[test]
fn another_waiter_takes_the_place_of_the_first() {
    let first = std::sync::Arc::new(Flag(std::sync::atomic::AtomicBool::new(false)));
    let mut socket = receiver(TEST_TOPIC, 512, 128);
    assert!(socket.poll_recv(&Waker::from(first.clone())).is_none());
    assert!(socket.poll_recv(Waker::noop()).is_none());
    assert!(first.0.load(std::sync::atomic::Ordering::SeqCst));
}

#[test]
fn an_empty_socket_takes_frames_again_and_again() {
    let mut stack = new_null_stack();
    stack.attach_broadcast_socket(receiver(TEST_TOPIC, 132, 64));
    for value in 0..100 {
        assert_eq!(broadcast_u64(&mut stack, value), Ok(()));
        assert_eq!(try_recv(&mut stack, 0), Some(value));
        assert_eq!(try_recv(&mut stack, 0), None);
    }
}

#[test]
fn a_unicast_message_is_delivered_once() {
    let mut stack = new_null_stack();
    let a = stack.attach_socket(receiver(TEST_TOPIC, 512, 128)).ok().unwrap();
    let b = stack.attach_socket(receiver(TEST_TOPIC, 512, 128)).ok().unwrap();
    assert_ne!(a, b);
    let mut hdr = broadcast(TEST_TOPIC);
    hdr.dst.port_id = b;
    hdr.any_all = None;
    assert_eq!(stack.send_ty(&hdr, &bytes(77)), Ok(()));
    assert_eq!(try_recv(&mut stack, 0), None);
    assert_eq!(try_recv(&mut stack, 1), Some(77));
    assert_eq!(try_recv(&mut stack, 1), None);
}

#[test]
fn the_waker_that_was_left_is_the_one_that_is_woken() {
    let first = std::sync::Arc::new(Flag(std::sync::atomic::AtomicBool::new(false)));
    let second = std::sync::Arc::new(Flag(std::sync::atomic::AtomicBool::new(false)));
    let mut socket = receiver(TEST_TOPIC, 512, 128);
    assert!(socket.poll_recv(&Waker::from(first.clone())).is_none());
    assert!(socket.poll_recv(&Waker::from(second.clone())).is_none());
    first.0.store(false, std::sync::atomic::Ordering::SeqCst);
    // A frame that is refused wakes nobody
    assert_eq!(socket.recv_raw(&[0; 600], broadcast(TEST_TOPIC)), Err(SocketSendError::NoSpace));
    assert!(!second.0.load(std::sync::atomic::Ordering::SeqCst));
    assert_eq!(socket.recv_raw(&[1], broadcast(TEST_TOPIC)), Ok(()));
    assert!(second.0.load(std::sync::atomic::Ordering::SeqCst));
    assert!(!first.0.load(std::sync::atomic::Ordering::SeqCst));
}

/// Where a queue of `capacity` bytes reads and writes.
struct Marks {
    read: usize,
    write: usize,
    last: usize,
}

impl Marks {
    fn start(&self, capacity: usize, needed: usize) -> Option<usize> {
        if self.write < self.read {
            if self.write + needed < self.read { Some(self.write) } else { None }
        } else if self.write + needed <= capacity {
            Some(self.write)
        } else if needed < self.read {
            Some(0)
        } else {
            None
        }
    }

    fn commit(&mut self, capacity: usize, start: usize, used: usize) {
        let write = start + used;
        if write < self.write && self.write != capacity {
            self.last = self.write;
        } else if write > self.last {
            self.last = capacity;
        }
        self.write = write;
    }

    fn look(&mut self) {
        if self.read == self.last && self.write < self.read {
            self.read = 0;
        }
    }
}

#[test]
fn a_used_queue_takes_what_has_room_behind_or_before_its_frames() {
    let mut hdr = broadcast(TEST_TOPIC);
    hdr.dst.port_id = 9;
    hdr.any_all = None;
    let mut buf = [0u8; 64];
    let hdr_len = wire_frames::encode_frame_ty(&mut buf, &hdr, &[]).unwrap();
    let mtu = 40;
    for capacity in [40usize, 41, 64, 97, 130] {
        let mut socket = receiver(TEST_TOPIC, capacity, mtu);
        let mut marks = Marks { read: 0, write: 0, last: 0 };
        let mut lens = std::collections::VecDeque::new();
        let mut random: u32 = 12345;
        let (mut taken, mut refused, mut wrapped) = (0, 0, 0);
        for _ in 0..5000 {
            random = random.wrapping_mul(1664525).wrapping_add(1013904223);
            let len = (random >> 16) as usize % 40;
            if (random >> 8) % 5 < 3 {
                let raw = (random >> 12) % 2 == 0;
                let size = if raw { hdr_len + len } else { mtu as usize };
                let body = vec![7u8; len];
                let ok = if raw {
                    socket.recv_raw(&body, hdr).is_ok()
                } else {
                    socket.recv_bor(hdr, &body).is_ok()
                };
                match marks.start(capacity, size + 2) {
                    Some(start) if !raw && hdr_len + len > mtu as usize => {
                        // The piece is given up again
                        assert!(!ok);
                        marks.commit(capacity, start, 0);
                    }
                    Some(start) => {
                        assert!(ok);
                        if start < marks.write {
                            wrapped += 1;
                        }
                        marks.commit(capacity, start, hdr_len + len + 2);
                        lens.push_back(len);
                        taken += 1;
                    }
                    None => {
                        assert!(!ok);
                        refused += 1;
                    }
                }
            } else {
                let got = socket.poll_recv(Waker::noop());
                marks.look();
                match lens.pop_front() {
                    Some(len) => {
                        let grant = got.unwrap();
                        assert!(matches!(
                            grant.try_access(),
                            Response::Message(m) if m.t == vec![7u8; len]
                        ));
                        socket.release(grant);
                        marks.look();
                        marks.read += hdr_len + len + 2;
                    }
                    None => assert!(got.is_none()),
                }
            }
        }
        assert!(taken > 100 && refused > 100 && wrapped > 10);
    }
}

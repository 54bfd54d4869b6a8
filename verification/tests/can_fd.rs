use ergot::interface_manager::interface_impls::can_fd::{
    decode_frame, encode_frame, encode_frame_err, encode_frame_raw, CanDecodeError,
    CanEncodeError, CanFdConfig, CanFdSink, CanFdTransmit, CanFrameId, CanPayloadHeader,
    CanPriority, DummyTransmit, CAN_FD_MAX_PAYLOAD, MAX_CAN_PAYLOAD_HDR_SIZE,
};
use ergot::interface_manager::InterfaceSink;
use ergot::wire_v0::{FrameKind, HeaderSeq};
use ergot::{Address, AnyAllAppendix, Key, NameHash, ProtocolError};

#[test]
fn test_can_id_roundtrip() {
    let id = CanFrameId::new(
        CanPriority::High,
        42,  // dst_node
        123, // dst_port
        FrameKind::endpoint_req(),
    );

    assert_eq!(id.priority(), CanPriority::High);
    assert_eq!(id.dst_node_id(), 42);
    assert_eq!(id.dst_port_id(), 123);
    assert_eq!(id.frame_kind(), FrameKind::endpoint_req());

    // Verify it fits in 29 bits
    assert!(id.to_raw() <= CanFrameId::MAX_EXTENDED_ID);
}

#[test]
fn test_can_id_from_header() {
    let hdr = HeaderSeq {
        src: Address { network_id: 1, node_id: 10, port_id: 20 },
        dst: Address { network_id: 2, node_id: 30, port_id: 40 },
        any_all: None,
        seq_no: 0x1234,
        kind: FrameKind::topic_msg(),
        ttl: 16,
    };

    let id = CanFrameId::from_header(&hdr);

    assert_eq!(id.dst_node_id(), 30);
    assert_eq!(id.dst_port_id(), 40);
    assert_eq!(id.frame_kind(), FrameKind::topic_msg());
    assert_eq!(id.priority(), CanPriority::Normal);
}

#[test]
fn test_frame_kind_encoding() {
    // Test all frame kinds round-trip correctly
    for (kind, expected_bits) in [
        (FrameKind::reserved(), 0),
        (FrameKind::endpoint_req(), 1),
        (FrameKind::endpoint_resp(), 2),
        (FrameKind::topic_msg(), 3),
        (FrameKind::protocol_error(), 7),
    ] {
        let id = CanFrameId::new(CanPriority::Normal, 0, 0, kind);
        assert_eq!(id.frame_kind(), kind, "Frame kind {:?} failed", kind);
        let bits = (id.to_raw() >> CanFrameId::KIND_SHIFT) & 0x7;
        assert_eq!(bits, expected_bits as u32);
    }
}

#[test]
fn test_encode_decode_roundtrip() {
    let hdr = HeaderSeq {
        src: Address { network_id: 100, node_id: 5, port_id: 10 },
        dst: Address { network_id: 200, node_id: 15, port_id: 20 },
        any_all: None,
        seq_no: 0xABCD,
        kind: FrameKind::endpoint_req(),
        ttl: 8,
    };

    let body: u32 = 0x12345678;
    let mut buf = [0u8; CAN_FD_MAX_PAYLOAD];

    let bytes = postcard::to_stdvec(&body).unwrap();
    let (can_id, len) = encode_frame(&hdr, &bytes, CanPriority::High, &mut buf).unwrap();

    // Decode
    let decoded = decode_frame(can_id, &buf[..len]).unwrap();

    assert_eq!(decoded.header.src, hdr.src);
    assert_eq!(decoded.header.dst, hdr.dst);
    assert_eq!(decoded.header.seq_no, hdr.seq_no);
    assert_eq!(decoded.header.kind, hdr.kind);
    assert_eq!(decoded.header.ttl, hdr.ttl);

    // Verify body
    let decoded_body: u32 = postcard::from_bytes(decoded.body.unwrap()).unwrap();
    assert_eq!(decoded_body, body);
}

#[test]
fn test_priority_ordering() {
    // Lower CAN ID = higher priority in CAN arbitration
    let high = CanFrameId::new(CanPriority::Critical, 10, 10, FrameKind::endpoint_req());
    let low = CanFrameId::new(CanPriority::Lowest, 10, 10, FrameKind::endpoint_req());

    assert!(high.to_raw() < low.to_raw());
}

#[test]
fn test_filter_masks() {
    // Create two IDs differing only in port
    let id1 = CanFrameId::new(CanPriority::Normal, 42, 1, FrameKind::endpoint_req());
    let id2 = CanFrameId::new(CanPriority::Normal, 42, 2, FrameKind::endpoint_req());

    // They should match with node-only mask
    let mask = CanFrameId::filter_mask_node_only();
    assert_eq!(id1.to_raw() & mask, id2.to_raw() & mask);

    // But differ with node+port mask
    let mask = CanFrameId::filter_mask_node_port();
    assert_ne!(id1.to_raw() & mask, id2.to_raw() & mask);
}

fn worst_header() -> HeaderSeq {
    HeaderSeq {
        src: Address { network_id: 0xFFFF, node_id: 0xFF, port_id: 0xFF },
        dst: Address { network_id: 0xFFFF, node_id: 0xFF, port_id: 0xFF },
        any_all: None,
        seq_no: 0xFFFF,
        kind: FrameKind::endpoint_req(),
        ttl: 0xFF,
    }
}

#[test]
fn test_payload_size() {
    // Verify we can fit a reasonable payload after headers
    let hdr = worst_header();

    let body: [u8; 32] = [0xAB; 32];
    let mut buf = [0u8; CAN_FD_MAX_PAYLOAD];

    let result = encode_frame_raw(&hdr, &body, CanPriority::Normal, &mut buf);

    assert!(result.is_ok(), "Should fit 32-byte body with max header");
}

#[test]
fn test_large_raw_payload_with_small_header() {
    let hdr = small_header();

    // With small addresses, header is ~7-8 bytes, so 50 bytes of body should fit
    let body: [u8; 50] = [0xCD; 50];
    let mut buf = [0u8; CAN_FD_MAX_PAYLOAD];

    let result = encode_frame_raw(&hdr, &body, CanPriority::Normal, &mut buf);
    assert!(
        result.is_ok(),
        "Should fit 50-byte body with minimal header, got {:?}",
        result
    );

    let (_, len) = result.unwrap();
    assert!(len <= CAN_FD_MAX_PAYLOAD);
    assert!(len >= 50); // At least the body size
}

fn small_header() -> HeaderSeq {
    HeaderSeq {
        src: Address { network_id: 1, node_id: 2, port_id: 3 },
        dst: Address { network_id: 1, node_id: 4, port_id: 5 },
        any_all: None,
        seq_no: 100,
        kind: FrameKind::endpoint_req(),
        ttl: 16,
    }
}

#[test]
fn can_id_exact_bits() {
    let id = CanFrameId::new(CanPriority::Bulk, 0x2A, 0x55, FrameKind::topic_msg());
    assert_eq!(id.to_raw(), (4 << 26) | (0x2A << 18) | (0x55 << 10) | (3 << 7));
    // Higher bits are ignored
    assert_eq!(CanFrameId::from_raw(0xE000_0000 | id.to_raw()), id);
    // A kind without bits of its own is reserved
    let odd = CanFrameId::new(CanPriority::Bulk, 1, 1, FrameKind(9));
    assert_eq!(odd.frame_kind(), FrameKind::reserved());
    let unknown = CanFrameId::from_raw(5 << 7);
    assert_eq!(unknown.frame_kind(), FrameKind::reserved());
}

#[test]
fn can_priorities_round_trip() {
    for bits in 0..=u8::MAX {
        assert_eq!(CanPriority::from_bits(bits).to_bits(), bits & 7);
    }
    assert_eq!(CanPriority::default(), CanPriority::Normal);
    let id = CanFrameId::from_header_with_priority(&small_header(), CanPriority::Background);
    assert_eq!(id.priority(), CanPriority::Background);
}

#[test]
fn full_filter_mask_covers_the_kind() {
    let mask = CanFrameId::filter_mask_full();
    assert_eq!(mask, 0x03FC_0000 | 0x3FC00 | 0x380);
    let req = CanFrameId::new(CanPriority::Normal, 42, 1, FrameKind::endpoint_req());
    let resp = CanFrameId::new(CanPriority::High, 42, 1, FrameKind::endpoint_resp());
    let same = CanFrameId::new(CanPriority::High, 42, 1, FrameKind::endpoint_req());
    assert_ne!(req.to_raw() & mask, resp.to_raw() & mask);
    assert_eq!(req.to_raw() & mask, same.to_raw() & mask);
}

#[test]
fn can_payload_exact_bytes() {
    let mut buf = [0u8; CAN_FD_MAX_PAYLOAD];
    let (_, len) = encode_frame_raw(&small_header(), &[9, 8], CanPriority::Normal, &mut buf).unwrap();
    // net 1, source 1.2:3 as a number, sequence number 100, ttl 16, body
    let mut expected = vec![1u8];
    expected.extend_from_slice(&postcard::to_stdvec(&0x0001_0203u32).unwrap());
    expected.extend_from_slice(&[100, 16, 9, 8]);
    assert_eq!(&buf[..len], &expected[..]);
    let p = CanPayloadHeader::from_header(&small_header());
    assert_eq!(p.src, 0x0001_0203);
    assert_eq!(p.src_address(), small_header().src);
}

#[test]
fn can_appendix_round_trip() {
    let mut hdr = worst_header();
    hdr.any_all = Some(AnyAllAppendix { key: Key(*b"TESTTEST"), nash: NameHash::from_u32(u32::MAX) });
    let mut buf = [0u8; CAN_FD_MAX_PAYLOAD];
    let body = [7u8; 38];
    let (id, len) = encode_frame(&hdr, &body, CanPriority::Low, &mut buf).unwrap();
    assert!(len <= MAX_CAN_PAYLOAD_HDR_SIZE + body.len());
    let frame = decode_frame(id, &buf[..len]).unwrap();
    assert_eq!(frame.header, hdr);
    assert_eq!(frame.body.unwrap(), &body);
}

#[test]
fn can_error_round_trip() {
    let mut hdr = worst_header();
    hdr.kind = FrameKind::protocol_error();
    let mut buf = [0u8; CAN_FD_MAX_PAYLOAD];
    let err = ProtocolError::IsePacketTooBig { mtu: 64 };
    let (id, len) = encode_frame_err(&hdr, err, CanPriority::Low, &mut buf).unwrap();
    let frame = decode_frame(id, &buf[..len]).unwrap();
    assert_eq!(frame.header, hdr);
    assert_eq!(frame.body, Err(err));
}

#[test]
fn can_encode_errors() {
    let hdr = small_header();
    let mut short = [0u8; MAX_CAN_PAYLOAD_HDR_SIZE - 1];
    assert_eq!(
        encode_frame(&hdr, &[], CanPriority::Normal, &mut short),
        Err(CanEncodeError::PayloadTooLarge)
    );
    // The raw form takes a short buffer if the frame fits
    assert!(encode_frame_raw(&hdr, &[], CanPriority::Normal, &mut short).is_ok());
    let mut tiny = [0u8; 3];
    assert_eq!(
        encode_frame_raw(&hdr, &[], CanPriority::Normal, &mut tiny),
        Err(CanEncodeError::SerializationError)
    );
    let mut long = [0u8; 200];
    assert_eq!(
        encode_frame(&hdr, &[0; 64], CanPriority::Normal, &mut long),
        Err(CanEncodeError::PayloadTooLarge)
    );
    let mut almost = [0u8; MAX_CAN_PAYLOAD_HDR_SIZE + 1];
    assert_eq!(
        encode_frame_err(&hdr, ProtocolError::Reserved, CanPriority::Normal, &mut almost),
        Err(CanEncodeError::PayloadTooLarge)
    );
}

#[test]
fn can_decode_errors() {
    let id = CanFrameId::new(CanPriority::Normal, 1, 5, FrameKind::endpoint_req());
    assert_eq!(decode_frame(id, &[1, 2]).unwrap_err(), CanDecodeError::DeserializationError);
    let any = CanFrameId::new(CanPriority::Normal, 1, 0, FrameKind::endpoint_req());
    assert_eq!(
        decode_frame(any, &[1, 2, 3, 4, 5, 6, 7, 8]).unwrap_err(),
        CanDecodeError::PayloadTooShort
    );
    let mut cut = vec![1u8, 2, 3, 4];
    cut.extend_from_slice(&[0; 8]);
    cut.push(0x80);
    assert_eq!(decode_frame(any, &cut).unwrap_err(), CanDecodeError::DeserializationError);
    let err = CanFrameId::new(CanPriority::Normal, 1, 0, FrameKind::protocol_error());
    assert_eq!(decode_frame(err, &[1, 2, 3, 4]).unwrap_err(), CanDecodeError::DeserializationError);
}

#[derive(Default)]
struct Wire {
    frames: Vec<(u32, Vec<u8>)>,
}

impl CanFdTransmit for Wire {
    type Error = ();

    fn transmitted(_: Self, _: Self, _: u32, _: vstd::seq::Seq<u8>, _: bool) -> bool {
        unreachable!("only a specification")
    }

    fn transmit(&mut self, id: u32, data: &[u8]) -> Result<(), ()> {
        self.frames.push((id, data.to_vec()));
        Ok(())
    }
}

#[test]
fn can_sink_puts_frames_on_the_wire() {
    let mut sink = CanFdSink::new(Wire::default(), CanFdConfig::default());
    assert_eq!(sink.mtu(), 64);
    let hdr = ergot::Header {
        src: Address { network_id: 1, node_id: 2, port_id: 3 },
        dst: Address { network_id: 1, node_id: 4, port_id: 5 },
        any_all: None,
        kind: ergot::FrameKind::endpoint_req(),
        class: ergot::TrafficClass::Normal,
        ttl: 7,
    };
    assert_eq!(sink.send_ty(&hdr, &[1, 2, 3]), Ok(()));
    assert_eq!(sink.send_raw(&hdr, &[4]), Ok(()));
    // Too large, and errors belong on their own path
    assert_eq!(sink.send_raw(&hdr, &[4; 64]), Err(()));
    assert_eq!(sink.send_err(&hdr, ProtocolError::NsseNoRoute), Err(()));
    let mut err_hdr = hdr;
    err_hdr.kind = ergot::FrameKind::protocol_error();
    assert_eq!(sink.send_ty(&err_hdr, &[1]), Err(()));
    assert_eq!(sink.send_err(&err_hdr, ProtocolError::NsseNoRoute), Ok(()));

    let frames = &sink.transmitter_mut().frames;
    assert_eq!(frames.len(), 3);
    let first = decode_frame(CanFrameId::from_raw(frames[0].0), &frames[0].1).unwrap();
    assert_eq!(first.header.src, hdr.src);
    assert_eq!(first.header.dst, hdr.dst);
    assert_eq!(first.header.seq_no, 0);
    assert_eq!(first.body.unwrap(), &[1, 2, 3]);
    let third = decode_frame(CanFrameId::from_raw(frames[2].0), &frames[2].1).unwrap();
    assert_eq!(third.body, Err(ProtocolError::NsseNoRoute));

    let mut dummy = CanFdSink::new(DummyTransmit, CanFdConfig::default());
    assert_eq!(dummy.send_ty(&hdr, &[1]), Err(()));
}

#[test]
fn an_id_is_what_its_number_is_parsed_to() {
    for raw in [0u32, 1, 0x7F, 0x1555_5555, 0x1FFF_FFFF, 0x2000_0000, 0xDEAD_BEEF, u32::MAX] {
        let id = CanFrameId::from_raw(raw);
        assert_eq!(id.to_raw(), raw & 0x1FFF_FFFF);
        assert_eq!(CanFrameId::from_raw(id.to_raw()), id);
    }
    let id = CanFrameId::new(CanPriority::Bulk, 255, 255, FrameKind::protocol_error());
    assert_eq!(CanFrameId::from_raw(id.to_raw()), id);
}

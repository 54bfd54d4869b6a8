use ergot::wire_frames::{
    de_frame, decode_frame_partial, encode_frame_err, encode_frame_hdr, encode_frame_ty, pack_meta,
    unpack_meta, EncodeFrameError, PartialDecodeTail, MAX_HDR_ENCODED_SIZE,
};
use ergot::{
    Address, AnyAllAppendix, FrameKind, Header, Key, NameHash, ProtocolError, TrafficClass, MAX_TTL,
};

#[test]
fn max_hdr_ser_size() {
    let hdr = Header {
        // Addresses: maximum integer values
        src: Address { network_id: u16::MAX, node_id: u8::MAX, port_id: u8::MAX },
        dst: Address { network_id: u16::MAX, node_id: u8::MAX, port_id: u8::MAX },
        kind: FrameKind::topic_msg(),
        class: TrafficClass::Background,
        ttl: MAX_TTL,
        any_all: Some(AnyAllAppendix {
            key: Key([0xFFu8; 8]),
            nash: NameHash::from_u32(u32::MAX),
        }),
    };
    let mut buf = [0u8; 64];
    let len = encode_frame_hdr(&mut buf, &hdr).unwrap();
    assert_eq!(len, MAX_HDR_ENCODED_SIZE);
}

#[test]
fn meta_byte_round_trips_every_kind_class_ttl() {
    for kind in [
        FrameKind::protocol_error(),
        FrameKind::endpoint_req(),
        FrameKind::endpoint_resp(),
        FrameKind::topic_msg(),
    ] {
        for class in [
            TrafficClass::Control,
            TrafficClass::Normal,
            TrafficClass::Bulk,
            TrafficClass::Background,
        ] {
            for ttl in 0..=MAX_TTL {
                let meta = pack_meta(kind, class, ttl);
                assert_eq!(unpack_meta(meta), (kind, class, ttl));
            }
        }
    }
}

#[test]
fn meta_byte_clamps_oversized_ttl() {
    let meta = pack_meta(FrameKind::endpoint_req(), TrafficClass::Normal, 200);
    assert_eq!(unpack_meta(meta).2, MAX_TTL);
}

#[test]
fn every_meta_byte_decodes() {
    // All 256 values are valid headers: no reserved kind, no reserved class.
    for meta in 0..=u8::MAX {
        let (kind, class, ttl) = unpack_meta(meta);
        assert!(kind.is_valid());
        assert_eq!(pack_meta(kind, class, ttl), meta);
    }
}

fn header(port_id: u8) -> Header {
    Header {
        src: Address { network_id: 1, node_id: 2, port_id: 3 },
        dst: Address { network_id: 4, node_id: 5, port_id },
        any_all: None,
        kind: FrameKind::endpoint_req(),
        class: TrafficClass::Bulk,
        ttl: 9,
    }
}

#[test]
fn meta_byte_exact_bits() {
    assert_eq!(pack_meta(FrameKind::endpoint_resp(), TrafficClass::Background, 5), 0b10_11_0101);
}

#[test]
fn frame_exact_bytes() {
    let mut buf = [0u8; 64];
    let hdr = header(6);
    let len = encode_frame_ty(&mut buf, &hdr, &[0xAA, 0xBB]).unwrap();
    let mut expected = postcard::to_stdvec(&0x0001_0203u32).unwrap();
    expected.extend_from_slice(&postcard::to_stdvec(&0x0004_0506u32).unwrap());
    expected.push(pack_meta(hdr.kind, hdr.class, hdr.ttl));
    expected.extend_from_slice(&[0xAA, 0xBB]);
    assert_eq!(&buf[..len], &expected[..]);
}

#[test]
fn message_round_trip() {
    let mut buf = [0u8; 64];
    let hdr = header(6);
    let len = encode_frame_ty(&mut buf, &hdr, &[1, 2, 3]).unwrap();
    let frame = de_frame(&buf[..len]).unwrap();
    assert_eq!(frame.hdr, hdr);
    assert_eq!(frame.body, Ok(&[1u8, 2, 3][..]));
    let part = decode_frame_partial(&buf[..len]).unwrap();
    assert!(matches!(part.tail, PartialDecodeTail::Specific(b) if b == &[1, 2, 3]));
}

#[test]
fn appendix_round_trip() {
    let mut buf = [0u8; 64];
    let mut hdr = header(255);
    hdr.any_all = Some(AnyAllAppendix { key: Key(*b"TESTTEST"), nash: NameHash::from_u32(77) });
    let len = encode_frame_ty(&mut buf, &hdr, &[4]).unwrap();
    let frame = de_frame(&buf[..len]).unwrap();
    assert_eq!(frame.hdr, hdr);
    assert_eq!(frame.body, Ok(&[4u8][..]));
    // A nash of zero is no nash
    hdr.any_all = Some(AnyAllAppendix { key: Key(*b"TESTTEST"), nash: None });
    let len = encode_frame_ty(&mut buf, &hdr, &[]).unwrap();
    assert_eq!(de_frame(&buf[..len]).unwrap().hdr, hdr);
}

#[test]
fn error_round_trip_for_every_error() {
    let errors = [
        ProtocolError::Reserved,
        ProtocolError::SseNoSpace,
        ProtocolError::SseDeserFailed,
        ProtocolError::SseTypeMismatch,
        ProtocolError::SseWhatTheHell,
        ProtocolError::IseDestinationLocal,
        ProtocolError::IseNoRouteToDest,
        ProtocolError::IseInterfaceFull,
        ProtocolError::IseInternalError,
        ProtocolError::IseAnyPortMissingKey,
        ProtocolError::IseTtlExpired,
        ProtocolError::IseRoutingLoop,
        ProtocolError::IsePacketTooBig { mtu: 1500 },
        ProtocolError::NsseNoRoute,
        ProtocolError::NsseAnyPortMissingKey,
        ProtocolError::NsseWrongPortKind,
        ProtocolError::NsseAnyPortNotUnique,
        ProtocolError::NsseAllPortMissingKey,
        ProtocolError::NsseWouldDeadlock,
    ];
    for err in errors {
        let mut hdr = header(6);
        hdr.kind = FrameKind::protocol_error();
        let mut buf = [0u8; 64];
        let len = encode_frame_err(&mut buf, &hdr, err).unwrap();
        let frame = de_frame(&buf[..len]).unwrap();
        assert_eq!(frame.hdr, hdr);
        assert_eq!(frame.body, Err(err));
    }
}

#[test]
fn short_buffers_and_garbage_are_errors() {
    let mut buf = [0u8; 4];
    assert!(matches!(
        encode_frame_ty(&mut buf, &header(6), &[1]),
        Err(EncodeFrameError::SerializationError(_))
    ));
    assert!(de_frame(&[]).is_none());
    assert!(de_frame(&[0x80]).is_none());
    // An any-port frame without its appendix
    let mut long = [0u8; 64];
    let len = encode_frame_ty(&mut long, &header(6), &[]).unwrap();
    let mut cut = long[..len].to_vec();
    let dst = postcard::to_stdvec(&0x0004_0500u32).unwrap();
    let src_len = postcard::to_stdvec(&0x0001_0203u32).unwrap().len();
    cut.splice(src_len..src_len + dst.len(), dst.iter().copied());
    assert!(de_frame(&cut).is_none());
}

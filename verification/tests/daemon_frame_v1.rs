//! Daemon frames: literal bytes, unknown numbers and error classes.

use running_process::daemon_frame_v1::{
    is_first_party_payload_protocol, is_private_payload_protocol, is_registered_payload_protocol,
    DaemonFrame, DaemonFrameCodec, DaemonFrameDecode, DaemonFrameError, DaemonFrameKind,
    DaemonPayloadEncoding,
};
use running_process::frame_v1::{encode_framed, Frame};

#[test]
fn request_matches_literal_consumer_wire_fixture() {
    let request =
        DaemonFrame::request(0x7A63, b"ping".to_vec()).with_request_id(0x0102_0304_0506_0708);
    assert_eq!(
        DaemonFrameCodec::encode(&request).unwrap(),
        [
            0x01, 0x16, 0, 0, 0, 0x08, 0x01, 0x18, 0xE3, 0xF4, 0x01, 0x22, 0x04, b'p', b'i', b'n',
            b'g', 0x28, 0x88, 0x8E, 0x98, 0xA8, 0xC0, 0xE0, 0x80, 0x81, 0x01,
        ]
    );
}

#[test]
fn decoded_trace_headers_are_not_reconstructed_from_semantic_ids() {
    let mut raw = Frame::request(0x7A63, vec![0, 255]);
    raw.traceparent = "01-ABCDEF0123456789ABCDEF0123456789-ABCDEF0123456789-fe".into();
    raw.tracestate = "vendor=One,another=Two".into();
    let wire = encode_framed(&raw).unwrap();
    let DaemonFrameDecode::Frame { frame, .. } = DaemonFrameCodec::decode(&wire).unwrap() else {
        panic!("complete frame")
    };
    assert_eq!(DaemonFrameCodec::encode(&frame).unwrap(), wire);
    let reply = DaemonFrame::response_to(&frame, Vec::new()).to_backend();
    assert_eq!(reply.traceparent, raw.traceparent);
    assert_eq!(reply.tracestate, raw.tracestate);
}

#[test]
fn raw_unknown_enums_trace_and_correlation_round_trip_in_frozen_bytes() {
    let frame = DaemonFrame::request(0x7A63, b"payload".to_vec())
        .with_request_id(77)
        .with_raw_kind(37)
        .with_raw_payload_encoding(91)
        .with_trace_context("0123456789abcdef0123456789abcdef", "0123456789abcdef")
        .with_trace_state("vendor=value");
    let wire = DaemonFrameCodec::encode(&frame).expect("encode");
    let DaemonFrameDecode::Frame {
        frame: decoded,
        consumed,
    } = DaemonFrameCodec::decode(&wire).expect("decode")
    else {
        panic!("complete")
    };
    assert_eq!(consumed, wire.len());
    assert_eq!(decoded.kind_classification(), DaemonFrameKind::Unknown(37));
    assert_eq!(
        decoded.payload_encoding_classification(),
        DaemonPayloadEncoding::Unknown(91)
    );
    assert_eq!(decoded.request_id(), 77);
    assert_eq!(decoded.trace_id(), Some("0123456789abcdef0123456789abcdef"));
    assert_eq!(DaemonFrameCodec::encode(&decoded).expect("reencode"), wire);
}

#[test]
fn incremental_and_frozen_error_mapping_are_stable() {
    assert_eq!(
        DaemonFrameCodec::decode(&[]).expect("partial"),
        DaemonFrameDecode::NeedMoreBytes
    );
    assert!(matches!(
        DaemonFrameCodec::decode(&[2]),
        Err(DaemonFrameError::UnsupportedFrameVersion { .. })
    ));
    assert!(matches!(
        DaemonFrameCodec::decode(&[1, 1, 0, 0, 0, 0xff]),
        Err(DaemonFrameError::MalformedFrame)
    ));
}

#[test]
fn oversized_bodies_are_refused_with_their_length() {
    let wire = [1, 1, 0, 0, 1];
    match DaemonFrameCodec::decode(&wire) {
        Err(DaemonFrameError::FrameTooLarge { body_length, maximum }) => {
            assert_eq!(body_length, 0x0100_0001);
            assert_eq!(maximum, 16 * 1024 * 1024);
        }
        _ => panic!("too large"),
    }
}

#[test]
fn builders_and_getters_agree() {
    let frame = DaemonFrame::request(0x7C4C, vec![1, 2, 3])
        .with_deadline_unix_ms(99)
        .with_trace_context("t", "s")
        .with_trace_state("state");
    assert_eq!(frame.envelope_version(), 1);
    assert_eq!(frame.kind_classification(), DaemonFrameKind::Request);
    assert_eq!(frame.payload_protocol(), 0x7C4C);
    assert_eq!(frame.payload(), &[1, 2, 3]);
    assert_eq!(frame.deadline_unix_ms(), 99);
    assert_eq!(frame.trace_id(), Some("t"));
    assert_eq!(frame.span_id(), Some("s"));
    assert_eq!(frame.trace_state(), "state");
    assert_eq!(
        frame.payload_encoding_classification(),
        DaemonPayloadEncoding::Unencoded
    );
    let wire = DaemonFrameCodec::encode_request(0x7C4C, vec![9], 4).unwrap();
    let DaemonFrameDecode::Frame { frame, consumed } = DaemonFrameCodec::decode(&wire).unwrap()
    else {
        panic!("complete")
    };
    assert_eq!(consumed, wire.len());
    let reply = DaemonFrameCodec::encode_response_to(&frame, vec![8]).unwrap();
    let DaemonFrameDecode::Frame { frame: reply, .. } = DaemonFrameCodec::decode(&reply).unwrap()
    else {
        panic!("complete")
    };
    assert_eq!(reply.request_id(), 4);
    assert_eq!(reply.kind_classification(), DaemonFrameKind::Response);
    assert_eq!(reply.payload(), &[8]);
    assert_eq!(DaemonFrame::request(1, vec![]).trace_id(), None);
    for (trace, span) in [("", "s"), ("t", ""), ("t-t", "s"), ("t", "s-s")] {
        let frame = DaemonFrame::request(1, vec![]).with_trace_context(trace, span);
        assert_eq!((frame.trace_id(), frame.span_id()), (None, None));
    }
}

#[test]
fn payload_protocol_ranges() {
    assert!(is_first_party_payload_protocol(0xAD01));
    assert!(!is_first_party_payload_protocol(0x7A63));
    assert!(is_registered_payload_protocol(0x7000));
    assert!(!is_registered_payload_protocol(0x6FFF));
    assert!(is_private_payload_protocol(0xFFFF));
    assert!(!is_private_payload_protocol(0x1_0000));
}

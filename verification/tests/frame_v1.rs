//! The frozen envelope: identifiers, framing and codecs.

use running_process::frame_v1::registry::{
    is_first_party, is_private_use_id, is_registered_consumer_id, register_payload_protocol,
    RegistrationError, ADMIN_PAYLOAD_PROTOCOL, BACKEND_HANDLE_PROBE_PAYLOAD_PROTOCOL,
    CLUD_PAYLOAD_PROTOCOL, CONSUMER_PAYLOAD_PROTOCOL_MAX, CONSUMER_PAYLOAD_PROTOCOL_MIN,
    CONTROL_PAYLOAD_PROTOCOL, FBUILD_PAYLOAD_PROTOCOL, HANDOFF_PAYLOAD_PROTOCOL,
    PRIVATE_USE_PAYLOAD_PROTOCOL_MAX, PRIVATE_USE_PAYLOAD_PROTOCOL_MIN, PROTOCOL_VERSION,
    SESSION_PAYLOAD_PROTOCOL, ZCCACHE_PAYLOAD_PROTOCOL,
};
use running_process::errors::{ErrorKind, IoFailure};
use running_process::frame_v1::{
    encode_framed, frame_step, read_failed, read_frame, read_frame_with_cap, try_decode_framed,
    write_failed, write_frame, Frame, FrameKind, FramePart, FrameStep, FramingError, PayloadEncoding, ENVELOPE_VERSION,
    FRAMING_VERSION_V1, MAX_FRAME_BYTES,
};

#[test]
fn payload_protocol_ids_are_pairwise_distinct() {
    let registered: [(u32, &str); 4] = [
        (CONTROL_PAYLOAD_PROTOCOL, "CONTROL_PAYLOAD_PROTOCOL"),
        (ADMIN_PAYLOAD_PROTOCOL, "ADMIN_PAYLOAD_PROTOCOL"),
        (
            BACKEND_HANDLE_PROBE_PAYLOAD_PROTOCOL,
            "BACKEND_HANDLE_PROBE_PAYLOAD_PROTOCOL",
        ),
        (HANDOFF_PAYLOAD_PROTOCOL, "HANDOFF_PAYLOAD_PROTOCOL"),
    ];
    for (left_index, (left_id, left_name)) in registered.iter().enumerate() {
        for (right_id, right_name) in &registered[left_index + 1..] {
            assert_ne!(
                left_id, right_id,
                "{left_name} and {right_name} share payload-protocol id {left_id:#06X}"
            );
        }
    }
}

#[test]
fn frozen_v1_wire_values() {
    assert_eq!(PROTOCOL_VERSION, 1);
    assert_eq!(CONTROL_PAYLOAD_PROTOCOL, 0x00);
    assert_eq!(ADMIN_PAYLOAD_PROTOCOL, 0xAD01);
    assert_eq!(BACKEND_HANDLE_PROBE_PAYLOAD_PROTOCOL, 0xB232);
    assert_eq!(HANDOFF_PAYLOAD_PROTOCOL, 0xD0FF);
    assert_eq!(u32::from(FRAMING_VERSION_V1), 1);
}

#[test]
fn frozen_consumer_registry_values() {
    assert_eq!(CONSUMER_PAYLOAD_PROTOCOL_MIN, 0x7000);
    assert_eq!(CONSUMER_PAYLOAD_PROTOCOL_MAX, 0x7EFF);
    assert_eq!(PRIVATE_USE_PAYLOAD_PROTOCOL_MIN, 0xF000);
    assert_eq!(PRIVATE_USE_PAYLOAD_PROTOCOL_MAX, 0xFFFF);
    assert_eq!(ZCCACHE_PAYLOAD_PROTOCOL, 0x7A63);
    assert_eq!(CLUD_PAYLOAD_PROTOCOL, 0x7C4C);
    assert_eq!(FBUILD_PAYLOAD_PROTOCOL, 0x7EB1);
    assert!(is_first_party(BACKEND_HANDLE_PROBE_PAYLOAD_PROTOCOL));
    assert!(is_registered_consumer_id(ZCCACHE_PAYLOAD_PROTOCOL));
    assert!(is_private_use_id(0xF412));
}

#[test]
fn register_macro_defines_usable_constants() {
    assert_eq!(register_payload_protocol(0x7001), Ok(0x7001));
    assert_eq!(register_payload_protocol(0xF00D), Ok(0xF00D));
}

#[test]
fn registration_refuses_collisions_and_foreign_ranges() {
    assert_eq!(
        register_payload_protocol(ADMIN_PAYLOAD_PROTOCOL),
        Err(RegistrationError::FirstPartyCollision)
    );
    assert_eq!(
        register_payload_protocol(0x6FFF),
        Err(RegistrationError::OutsideAllowedRanges)
    );
    assert_eq!(
        register_payload_protocol(0x7F00),
        Err(RegistrationError::OutsideAllowedRanges)
    );
    assert_eq!(register_payload_protocol(0x7EFF), Ok(0x7EFF));
    assert_eq!(SESSION_PAYLOAD_PROTOCOL, 0x5350);
}

#[test]
fn root_client_reexports_keep_frame_extensions_and_codecs() {
    let frame = Frame::request(0x7A63, b"ping".to_vec()).with_request_id(42);
    assert_eq!(frame.kind, FrameKind::Request.value());
    assert_eq!(frame.payload_encoding, PayloadEncoding::Unencoded.value());

    let wire = encode_framed(&frame).expect("encode");
    let decoded = try_decode_framed(&wire)
        .expect("decode")
        .expect("complete frame");
    assert_eq!(decoded.frame, frame);
    assert_eq!(decoded.consumed, wire.len());
}

#[test]
fn try_decode_framed_waits_for_complete_frames() {
    let wire = encode_framed(&Frame::request(0x7001, b"abc".to_vec())).expect("encode");

    assert!(
        try_decode_framed(&[])
            .expect("empty buffer is not an error")
            .is_none(),
        "an empty buffer must ask for more bytes, not decode"
    );
    for cut in 1..wire.len() {
        assert!(
            try_decode_framed(&wire[..cut])
                .expect("a prefix is not an error")
                .is_none(),
            "partial frame of {cut} of {} bytes must not decode",
            wire.len()
        );
    }

    let mut two = wire.clone();
    two.extend_from_slice(&wire);
    let first = try_decode_framed(&two)
        .expect("decode")
        .expect("first frame is complete");
    assert_eq!(first.consumed, wire.len());
}

#[test]
fn try_decode_framed_rejects_foreign_version_and_oversize() {
    let foreign = ENVELOPE_VERSION.wrapping_add(1);
    assert!(matches!(
        try_decode_framed(&[foreign, 0, 0, 0, 0]),
        Err(FramingError::UnsupportedFramingVersion { got, expected })
            if got == foreign && expected == ENVELOPE_VERSION
    ));

    let mut oversize = vec![ENVELOPE_VERSION];
    let claimed = u32::try_from(MAX_FRAME_BYTES).expect("cap fits u32") + 1;
    oversize.extend_from_slice(&claimed.to_le_bytes());
    assert!(matches!(
        try_decode_framed(&oversize),
        Err(FramingError::FrameTooLarge { body_length, cap })
            if body_length == claimed as usize && cap == MAX_FRAME_BYTES
    ));
}

#[test]
fn response_keeps_the_correlation_of_its_request() {
    let mut request = Frame::request(0x7001, vec![1]).with_request_id(9);
    request.deadline_unix_ms = 77;
    request.traceparent = "00-a-b-01".to_string();
    request.tracestate = "x=y".to_string();
    let response = Frame::response_to(&request, vec![2]);
    assert_eq!(response.kind, FrameKind::Response.value());
    assert_eq!(response.request_id, 9);
    assert_eq!(response.payload_protocol, 0x7001);
    assert_eq!(response.payload, vec![2]);
    assert_eq!(response.traceparent, "00-a-b-01");
    assert_eq!(response.tracestate, "x=y");
}

#[test]
fn every_field_survives_the_body_codec() {
    let frame = Frame {
        envelope_version: 3,
        kind: -2,
        payload_protocol: 0xFFFF_FFFF,
        payload: vec![0, 255, 128],
        request_id: u64::MAX,
        payload_encoding: 7,
        deadline_unix_ms: 1 << 40,
        traceparent: "\u{e9}".to_string(),
        tracestate: "\u{1F600}".to_string(),
    };
    let body = frame.encode_body();
    assert_eq!(Frame::decode_body(&body).expect("decode"), frame);
    assert!(Frame::decode_body(&[0xff]).is_err());
    assert!(Frame::decode_body(&[0x3a, 0x01, 0xff]).is_err());
}

#[test]
fn unknown_fields_are_skipped() {
    let mut body = vec![0x7A, 0x02, b'h', b'i'];
    body.extend_from_slice(&Frame::request(0x7001, vec![5]).encode_body());
    let frame = Frame::decode_body(&body).expect("decode");
    assert_eq!(frame.payload, vec![5]);
}

#[test]
fn frames_are_read_back_from_a_stream() {
    let wire = write_frame(b"abc").expect("frame");
    assert_eq!(wire, vec![1, 3, 0, 0, 0, b'a', b'b', b'c']);
    assert_eq!(read_frame(&wire).expect("read"), b"abc".to_vec());
    assert!(matches!(
        read_frame_with_cap(&wire, 2),
        Err(FramingError::FrameTooLarge { body_length: 3, cap: 2 })
    ));
    assert!(matches!(
        read_frame(&wire[..6]),
        Err(FramingError::UnexpectedEof { context: FramePart::FrameBody })
    ));
    assert!(matches!(
        frame_step(&[], 10),
        FrameStep::Read { count: 1, context: FramePart::FramingByte }
    ));
    assert!(matches!(frame_step(&wire, 10), FrameStep::Done));
    assert_eq!(
        read_frame(&[9]).err().expect("foreign").message(),
        FramingError::UnsupportedFramingVersion { got: 9, expected: 1 }.message()
    );
}

#[test]
fn caps_above_the_default_are_honoured() {
    let header = [1, 0xff, 0xff, 0xff, 0xff];
    assert!(matches!(
        frame_step(&header, usize::MAX),
        FrameStep::Read { count: 0xffff_ffff, context: FramePart::FrameBody }
    ));
    assert!(matches!(
        frame_step(&header, 0xffff_fffe),
        FrameStep::Fail(FramingError::FrameTooLarge { body_length: 0xffff_ffff, cap: 0xffff_fffe })
    ));
}

#[test]
fn stream_failures_keep_their_text() {
    let ended = IoFailure {
        kind: ErrorKind::UnexpectedEof,
        raw_os_error: None,
        text: "failed to fill whole buffer".to_string(),
    };
    assert_eq!(
        read_failed(FramePart::FrameBody, ended).message(),
        "unexpected EOF while reading frame (frame body)"
    );
    let reset = IoFailure {
        kind: ErrorKind::ConnectionAborted,
        raw_os_error: Some(104),
        text: "Connection reset by peer (os error 104)".to_string(),
    };
    assert_eq!(
        read_failed(FramePart::FramingByte, reset.clone()).message(),
        "I/O error: Connection reset by peer (os error 104)"
    );
    assert_eq!(
        write_failed(reset).message(),
        "I/O error: Connection reset by peer (os error 104)"
    );
}

#[test]
fn malformed_bodies_are_explained() {
    let text = |body: &[u8]| {
        let wire = write_frame(body).expect("frame");
        try_decode_framed(&wire).err().expect("malformed").message()
    };
    let said = "failed to decode Frame body: failed to decode Protobuf message: ";
    assert_eq!(text(&[0x08]), format!("{said}Frame.envelope_version: invalid varint"));
    assert_eq!(
        text(&[0x0a, 0x00]),
        format!("{said}Frame.envelope_version: invalid wire type: LengthDelimited (expected Varint)")
    );
    assert_eq!(
        text(&[0x25, 0, 0, 0, 0]),
        format!("{said}Frame.payload: invalid wire type: ThirtyTwoBit (expected LengthDelimited)")
    );
    assert_eq!(text(&[0x22, 5, 1]), format!("{said}Frame.payload: buffer underflow"));
    assert_eq!(
        text(&[0x42, 1, 0xff]),
        format!("{said}Frame.traceparent: invalid string value: data is not UTF-8 encoded")
    );
    assert_eq!(text(&[0x0f]), format!("{said}invalid wire type value: 7"));
    assert_eq!(text(&[0x00]), format!("{said}invalid tag value: 0"));
    assert_eq!(
        text(&[0x80, 0x80, 0x80, 0x80, 0x10]),
        format!("{said}invalid key value: 4294967296")
    );
    assert_eq!(text(&[0x7c]), format!("{said}unexpected end group tag"));
    assert_eq!(text(&[0x7a, 9]), format!("{said}buffer underflow"));
}

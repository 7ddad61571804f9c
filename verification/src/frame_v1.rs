//! The v1 frame envelope: `[u8 version = 1][u32 LE body length][frame body]`.
//!
//! The body is a protocol-buffer message. Decoding is incremental: a partial
//! header or body asks for more bytes and consumes nothing.

use crate::errors::{ErrorKind, IoFailure};
use crate::protobuf::{
    after_unknown_field, append_numeric_field, append_run_field, lemma_parse_key_prefix,
    lemma_parse_run_prefix, lemma_parse_varint_prefix, numeric_field, parse_key, parse_numeric,
    parse_run, parse_text, read_key, read_numeric, read_run, read_text, read_unknown, refusal,
    run_field, varint, BodyError, LENGTH_DELIMITED, VARINT,
};
use crate::text::{append_decimal, decimal};
use crate::wire::{append_bytes, append_u32_le, copy_bytes, le_u32, lemma_le_u32_len, read_u32_le, u32_at};
use vstd::prelude::*;
use vstd::string::*;
use vstd::utf8::*;

pub mod registry;

verus! {

broadcast use lemma_le_u32_len;

/// Framing byte of every v1 frame.
pub const FRAMING_VERSION_V1: u8 = 1;

/// Hard ceiling on one frame body (16 MiB).
pub const MAX_FRAME_SIZE_BYTES: usize = 16777216;

/// Hard ceiling on the initial hello envelope (64 KiB).
pub const MAX_HELLO_SIZE_BYTES: usize = 65536;

/// Framing byte. Alias of [`FRAMING_VERSION_V1`].
pub const ENVELOPE_VERSION: u8 = FRAMING_VERSION_V1;

/// Default per-frame cap. Alias of [`MAX_FRAME_SIZE_BYTES`].
pub const MAX_FRAME_BYTES: usize = MAX_FRAME_SIZE_BYTES;

/// Hello-envelope cap. Alias of [`MAX_HELLO_SIZE_BYTES`].
pub const MAX_HELLO_BYTES: usize = MAX_HELLO_SIZE_BYTES;

/// Length of the outer header.
pub const FRAME_HEADER_BYTES: usize = 5;

/// What a frame is. The discriminants on the wire are 0 to 3, in this order.
#[derive(Clone, Copy, Debug, PartialEq, Eq, Structural)]
pub enum FrameKind {
    /// A request that expects a correlated response.
    Request,
    /// A response to a prior request.
    Response,
    /// An event that the daemon raised.
    Event,
    /// A request to cancel an operation in flight.
    Cancel,
}

impl FrameKind {
    /// The discriminant on the wire.
    pub open spec fn spec_value(self) -> i32 {
        match self {
            FrameKind::Request => 0,
            FrameKind::Response => 1,
            FrameKind::Event => 2,
            FrameKind::Cancel => 3,
        }
    }

    /// The discriminant on the wire.
    pub fn value(self) -> (v: i32)
        ensures
            v == self.spec_value(),
    {
        match self {
            FrameKind::Request => 0,
            FrameKind::Response => 1,
            FrameKind::Event => 2,
            FrameKind::Cancel => 3,
        }
    }
}

/// How a payload is encoded. The discriminants on the wire are 0 to 3, in this
/// order.
#[derive(Clone, Copy, Debug, PartialEq, Eq, Structural)]
pub enum PayloadEncoding {
    /// Opaque bytes.
    Unencoded,
    /// Zstandard.
    Zstd,
    /// Snappy.
    Snappy,
    /// LZ4.
    Lz4,
}

impl PayloadEncoding {
    /// The discriminant on the wire.
    pub open spec fn spec_value(self) -> i32 {
        match self {
            PayloadEncoding::Unencoded => 0,
            PayloadEncoding::Zstd => 1,
            PayloadEncoding::Snappy => 2,
            PayloadEncoding::Lz4 => 3,
        }
    }

    /// The discriminant on the wire.
    pub fn value(self) -> (v: i32)
        ensures
            v == self.spec_value(),
    {
        match self {
            PayloadEncoding::Unencoded => 0,
            PayloadEncoding::Zstd => 1,
            PayloadEncoding::Snappy => 2,
            PayloadEncoding::Lz4 => 3,
        }
    }
}

/// One v1 envelope. `kind` and `payload_encoding` stay raw, so that a value
/// this version does not know survives decoding and encoding.
#[derive(Clone, Debug, PartialEq, Eq)]
pub struct Frame {
    /// Protocol version inside the body.
    pub envelope_version: u32,
    /// Raw frame kind.
    pub kind: i32,
    /// Payload protocol identifier.
    pub payload_protocol: u32,
    /// Payload bytes.
    pub payload: Vec<u8>,
    /// Correlation identifier.
    pub request_id: u64,
    /// Raw payload encoding.
    pub payload_encoding: i32,
    /// Absolute deadline in Unix milliseconds.
    pub deadline_unix_ms: u64,
    /// W3C `traceparent` header.
    pub traceparent: String,
    /// W3C `tracestate` header.
    pub tracestate: String,
}

/// What a [`Frame`] holds.
#[verifier::ext_equal]
pub struct FrameModel {
    /// Protocol version inside the body.
    pub envelope_version: u32,
    /// Raw frame kind.
    pub kind: i32,
    /// Payload protocol identifier.
    pub payload_protocol: u32,
    /// Payload bytes.
    pub payload: Seq<u8>,
    /// Correlation identifier.
    pub request_id: u64,
    /// Raw payload encoding.
    pub payload_encoding: i32,
    /// Absolute deadline in Unix milliseconds.
    pub deadline_unix_ms: u64,
    /// W3C `traceparent` header.
    pub traceparent: Seq<char>,
    /// W3C `tracestate` header.
    pub tracestate: Seq<char>,
}

impl View for Frame {
    type V = FrameModel;

    open spec fn view(&self) -> FrameModel {
        FrameModel {
            envelope_version: self.envelope_version,
            kind: self.kind,
            payload_protocol: self.payload_protocol,
            payload: self.payload@,
            request_id: self.request_id,
            payload_encoding: self.payload_encoding,
            deadline_unix_ms: self.deadline_unix_ms,
            traceparent: self.traceparent@,
            tracestate: self.tracestate@,
        }
    }
}

/// The frame all of whose fields have their default value.
pub open spec fn empty_frame() -> FrameModel {
    FrameModel {
        envelope_version: 0,
        kind: 0,
        payload_protocol: 0,
        payload: Seq::empty(),
        request_id: 0,
        payload_encoding: 0,
        deadline_unix_ms: 0,
        traceparent: Seq::empty(),
        tracestate: Seq::empty(),
    }
}

/// A request with the v1 defaults.
pub open spec fn request_frame(payload_protocol: u32, payload: Seq<u8>) -> FrameModel {
    FrameModel {
        envelope_version: registry::PROTOCOL_VERSION,
        kind: FrameKind::Request.spec_value(),
        payload_protocol,
        payload,
        ..empty_frame()
    }
}

/// The response to a request: same protocol, correlation and trace headers.
pub open spec fn response_frame(request: FrameModel, payload: Seq<u8>) -> FrameModel {
    FrameModel {
        envelope_version: registry::PROTOCOL_VERSION,
        kind: FrameKind::Response.spec_value(),
        payload_protocol: request.payload_protocol,
        payload,
        request_id: request.request_id,
        traceparent: request.traceparent,
        tracestate: request.tracestate,
        ..empty_frame()
    }
}

impl Frame {
    /// The frame all of whose fields have their default value.
    pub fn empty() -> (f: Frame)
        ensures
            f@ == empty_frame(),
    {
        Frame {
            envelope_version: 0,
            kind: 0,
            payload_protocol: 0,
            payload: Vec::new(),
            request_id: 0,
            payload_encoding: 0,
            deadline_unix_ms: 0,
            traceparent: String::new(),
            tracestate: String::new(),
        }
    }

    /// A request with the v1 defaults.
    pub fn request(payload_protocol: u32, payload: Vec<u8>) -> (f: Frame)
        ensures
            f@ == request_frame(payload_protocol, payload@),
    {
        let mut f = Frame::empty();
        f.envelope_version = registry::PROTOCOL_VERSION;
        f.kind = FrameKind::Request.value();
        f.payload_protocol = payload_protocol;
        f.payload = payload;
        f
    }

    /// The response to `request`.
    pub fn response_to(request: &Frame, payload: Vec<u8>) -> (f: Frame)
        ensures
            f@ == response_frame(request@, payload@),
    {
        let mut f = Frame::empty();
        f.envelope_version = registry::PROTOCOL_VERSION;
        f.kind = FrameKind::Response.value();
        f.payload_protocol = request.payload_protocol;
        f.payload = payload;
        f.request_id = request.request_id;
        f.traceparent = request.traceparent.clone();
        f.tracestate = request.tracestate.clone();
        f
    }

    /// Sets the correlation identifier.
    pub fn with_request_id(self, request_id: u64) -> (f: Frame)
        ensures
            f@ == (FrameModel { request_id, ..self@ }),
    {
        let mut f = self;
        f.request_id = request_id;
        f
    }
}

/// A 32-bit signed number as it goes onto the wire: extended to 64 bits.
pub open spec fn wire_i32(v: i32) -> u64 {
    if v >= 0 {
        v as u64
    } else {
        (0x1_0000_0000_0000_0000 + v) as u64
    }
}

/// A 32-bit signed number as it comes from the wire: the low 32 bits.
pub open spec fn unwire_i32(v: u64) -> i32 {
    let low = v as int % 0x1_0000_0000;
    if low < 0x8000_0000 {
        low as i32
    } else {
        (low - 0x1_0000_0000) as i32
    }
}

/// A 32-bit number as it comes from the wire: the low 32 bits.
pub open spec fn unwire_u32(v: u64) -> u32 {
    (v as int % 0x1_0000_0000) as u32
}

fn to_wire_i32(v: i32) -> (w: u64)
    ensures
        w == wire_i32(v),
{
    if v >= 0 {
        v as u64
    } else {
        u64::MAX - ((-(v as i64) - 1) as u64)
    }
}

fn from_wire_i32(w: u64) -> (v: i32)
    ensures
        v == unwire_i32(w),
{
    let low: u64 = w % 0x1_0000_0000;
    if low < 0x8000_0000 {
        low as i32
    } else {
        (low as i64 - 0x1_0000_0000) as i32
    }
}

/// The message body of a frame; fields that have their default are left out.
pub open spec fn frame_body(f: FrameModel) -> Seq<u8> {
    numeric_field(1, f.envelope_version as u64) + (numeric_field(2, wire_i32(f.kind)) + (
    numeric_field(3, f.payload_protocol as u64) + (run_field(4, f.payload) + (numeric_field(
        5,
        f.request_id,
    ) + (numeric_field(6, wire_i32(f.payload_encoding)) + (numeric_field(7, f.deadline_unix_ms) + (
    run_field(8, encode_utf8(f.traceparent)) + run_field(9, encode_utf8(f.tracestate)))))))))
}

/// Where an error in the field with this tag is placed.
pub open spec fn field_place(tag: u32) -> Seq<char> {
    if tag == 1 {
        "Frame.envelope_version: "@
    } else if tag == 2 {
        "Frame.kind: "@
    } else if tag == 3 {
        "Frame.payload_protocol: "@
    } else if tag == 4 {
        "Frame.payload: "@
    } else if tag == 5 {
        "Frame.request_id: "@
    } else if tag == 6 {
        "Frame.payload_encoding: "@
    } else if tag == 7 {
        "Frame.deadline_unix_ms: "@
    } else if tag == 8 {
        "Frame.traceparent: "@
    } else {
        "Frame.tracestate: "@
    }
}

fn place_of(tag: u32) -> (place: &'static str)
    ensures
        place@ == field_place(tag),
{
    if tag == 1 {
        "Frame.envelope_version: "
    } else if tag == 2 {
        "Frame.kind: "
    } else if tag == 3 {
        "Frame.payload_protocol: "
    } else if tag == 4 {
        "Frame.payload: "
    } else if tag == 5 {
        "Frame.request_id: "
    } else if tag == 6 {
        "Frame.payload_encoding: "
    } else if tag == 7 {
        "Frame.deadline_unix_ms: "
    } else if tag == 8 {
        "Frame.traceparent: "
    } else {
        "Frame.tracestate: "
    }
}

/// Takes one field into a frame: the frame after it, and what follows; or the
/// text of the error.
pub open spec fn take_field(f: FrameModel, tag: u32, wire_type: u8, s: Seq<u8>) -> Result<
    (FrameModel, Seq<u8>),
    Seq<char>,
> {
    if tag == 4 {
        match parse_run(wire_type, s) {
            Ok((run, rest)) => Ok((FrameModel { payload: run, ..f }, rest)),
            Err(cause) => Err(refusal(field_place(tag), cause)),
        }
    } else if tag == 8 {
        match parse_text(wire_type, s) {
            Ok((text, rest)) => Ok((FrameModel { traceparent: text, ..f }, rest)),
            Err(cause) => Err(refusal(field_place(tag), cause)),
        }
    } else if tag == 9 {
        match parse_text(wire_type, s) {
            Ok((text, rest)) => Ok((FrameModel { tracestate: text, ..f }, rest)),
            Err(cause) => Err(refusal(field_place(tag), cause)),
        }
    } else if 1 <= tag <= 7 {
        match parse_numeric(wire_type, s) {
            Ok((v, rest)) => Ok((with_number(f, tag, v), rest)),
            Err(cause) => Err(refusal(field_place(tag), cause)),
        }
    } else {
        match after_unknown_field(wire_type, tag, s) {
            Ok(rest) => Ok((f, rest)),
            Err(text) => Err(text),
        }
    }
}

/// A frame with one of its numeric fields set from the wire.
pub open spec fn with_number(f: FrameModel, tag: u32, v: u64) -> FrameModel {
    if tag == 1 {
        FrameModel { envelope_version: unwire_u32(v), ..f }
    } else if tag == 2 {
        FrameModel { kind: unwire_i32(v), ..f }
    } else if tag == 3 {
        FrameModel { payload_protocol: unwire_u32(v), ..f }
    } else if tag == 5 {
        FrameModel { request_id: v, ..f }
    } else if tag == 6 {
        FrameModel { payload_encoding: unwire_i32(v), ..f }
    } else {
        FrameModel { deadline_unix_ms: v, ..f }
    }
}

/// Takes the fields of `s` into `f`, in order; a later field overrides an
/// earlier one with the same tag. A field never ends before it began.
pub open spec fn take_fields(f: FrameModel, s: Seq<u8>) -> Result<FrameModel, Seq<char>>
    decreases s.len(),
{
    if s.len() == 0 {
        Ok(f)
    } else {
        match parse_key(s) {
            Err(cause) => Err(refusal(""@, cause)),
            Ok((tag, wire_type, content)) => match take_field(f, tag, wire_type, content) {
                Err(e) => Err(e),
                Ok((next, rest)) => if rest.len() < s.len() {
                    take_fields(next, rest)
                } else {
                    Err(Seq::empty())
                },
            },
        }
    }
}

/// What a message body decodes to, or the text of the error.
pub open spec fn parse_frame_body(s: Seq<u8>) -> Result<FrameModel, Seq<char>> {
    take_fields(empty_frame(), s)
}

proof fn lemma_append_assoc(a: Seq<u8>, b: Seq<u8>, c: Seq<u8>)
    ensures
        (a + b) + c == a + (b + c),
{
    assert((a + b) + c =~= a + (b + c));
}

proof fn lemma_regroup(
    a: Seq<u8>,
    b: Seq<u8>,
    c: Seq<u8>,
    d: Seq<u8>,
    e: Seq<u8>,
    f: Seq<u8>,
    g: Seq<u8>,
    h: Seq<u8>,
    i: Seq<u8>,
)
    ensures
        Seq::<u8>::empty() + a + b + c + d + e + f + g + h + i == a + (b + (c + (d + (e + (f + (g + (h
            + i))))))),
{
    let none = Seq::<u8>::empty();
    assert(none + a =~= a);
    lemma_append_assoc(a + b + c + d + e + f + g, h, i);
    lemma_append_assoc(a + b + c + d + e + f, g, h + i);
    lemma_append_assoc(a + b + c + d + e, f, g + (h + i));
    lemma_append_assoc(a + b + c + d, e, f + (g + (h + i)));
    lemma_append_assoc(a + b + c, d, e + (f + (g + (h + i))));
    lemma_append_assoc(a + b, c, d + (e + (f + (g + (h + i)))));
    lemma_append_assoc(a, b, c + (d + (e + (f + (g + (h + i))))));
}

impl Frame {
    /// Encodes the message body.
    pub fn encode_body(&self) -> (out: Vec<u8>)
        ensures
            out@ == frame_body(self@),
    {
        let mut out: Vec<u8> = Vec::new();
        append_numeric_field(&mut out, 1, self.envelope_version as u64);
        append_numeric_field(&mut out, 2, to_wire_i32(self.kind));
        append_numeric_field(&mut out, 3, self.payload_protocol as u64);
        append_run_field(&mut out, 4, &self.payload);
        append_numeric_field(&mut out, 5, self.request_id);
        append_numeric_field(&mut out, 6, to_wire_i32(self.payload_encoding));
        append_numeric_field(&mut out, 7, self.deadline_unix_ms);
        append_run_field(&mut out, 8, self.traceparent.as_str().as_bytes());
        append_run_field(&mut out, 9, self.tracestate.as_str().as_bytes());
        proof {
            let f = self@;
            lemma_regroup(
                numeric_field(1, f.envelope_version as u64),
                numeric_field(2, wire_i32(f.kind)),
                numeric_field(3, f.payload_protocol as u64),
                run_field(4, f.payload),
                numeric_field(5, f.request_id),
                numeric_field(6, wire_i32(f.payload_encoding)),
                numeric_field(7, f.deadline_unix_ms),
                run_field(8, encode_utf8(f.traceparent)),
                run_field(9, encode_utf8(f.tracestate)),
            );
        }
        out
    }

    /// Decodes a message body.
    pub fn decode_body(input: &[u8]) -> (r: Result<Frame, BodyError>)
        ensures
            match r {
                Ok(f) => parse_frame_body(input@) == Ok::<FrameModel, Seq<char>>(f@),
                Err(e) => parse_frame_body(input@) == Err::<FrameModel, Seq<char>>(e@),
            },
    {
        let mut frame = Frame::empty();
        let mut rest: &[u8] = input;
        while rest.len() > 0
            invariant
                parse_frame_body(input@) == take_fields(frame@, rest@),
            decreases rest@.len(),
        {
            let ghost before = frame@;
            let (tag, wire_type, content): (u32, u8, &[u8]) = match read_key(rest) {
                Ok(key) => key,
                Err(cause) => return Err(BodyError::at("", cause)),
            };
            let next: &[u8] = if tag == 4 {
                let (run, next) = match read_run(wire_type, content) {
                    Ok(field) => field,
                    Err(cause) => return Err(BodyError::at(place_of(tag), cause)),
                };
                frame.payload = run;
                next
            } else if tag == 8 || tag == 9 {
                let (text, next) = match read_text(wire_type, content) {
                    Ok(field) => field,
                    Err(cause) => return Err(BodyError::at(place_of(tag), cause)),
                };
                if tag == 8 {
                    frame.traceparent = text;
                } else {
                    frame.tracestate = text;
                }
                next
            } else if tag <= 7 {
                let (v, next): (u64, &[u8]) = match read_numeric(wire_type, content) {
                    Ok(field) => field,
                    Err(cause) => return Err(BodyError::at(place_of(tag), cause)),
                };
                if tag == 1 {
                    frame.envelope_version = (v % 0x1_0000_0000) as u32;
                } else if tag == 2 {
                    frame.kind = from_wire_i32(v);
                } else if tag == 3 {
                    frame.payload_protocol = (v % 0x1_0000_0000) as u32;
                } else if tag == 5 {
                    frame.request_id = v;
                } else if tag == 6 {
                    frame.payload_encoding = from_wire_i32(v);
                } else {
                    frame.deadline_unix_ms = v;
                }
                assert(frame@ =~= with_number(before, tag, v));
                next
            } else {
                read_unknown(wire_type, tag, content)?
            };
            assert(take_field(before, tag, wire_type, content@) == Ok::<
                (FrameModel, Seq<u8>),
                Seq<char>,
            >((frame@, next@)));
            rest = next;
        }
        Ok(frame)
    }
}

/// The part of a frame that a stream was in when it ended.
#[derive(Clone, Copy, Debug, PartialEq, Eq, Structural)]
pub enum FramePart {
    /// The framing byte.
    FramingByte,
    /// The body length.
    BodyLengthHeader,
    /// The body.
    FrameBody,
}

impl FramePart {
    /// Name of the part.
    pub open spec fn spec_str(self) -> Seq<char> {
        match self {
            FramePart::FramingByte => "framing byte"@,
            FramePart::BodyLengthHeader => "body length header"@,
            FramePart::FrameBody => "frame body"@,
        }
    }

    /// Name of the part.
    pub fn as_str(self) -> (s: &'static str)
        ensures
            s@ == self.spec_str(),
    {
        match self {
            FramePart::FramingByte => "framing byte",
            FramePart::BodyLengthHeader => "body length header",
            FramePart::FrameBody => "frame body",
        }
    }
}

/// Why a frame could not be read, written, or decoded.
#[derive(Clone, Debug, PartialEq, Eq)]
pub enum FramingError {
    /// The framing byte is not [`ENVELOPE_VERSION`].
    UnsupportedFramingVersion {
        /// Byte that was received.
        got: u8,
        /// Byte that this codec expects.
        expected: u8,
    },
    /// The body is longer than the cap.
    FrameTooLarge {
        /// Length of the body.
        body_length: usize,
        /// Cap that applied.
        cap: usize,
    },
    /// The stream ended before the frame was complete.
    UnexpectedEof {
        /// Part that was incomplete.
        context: FramePart,
    },
    /// The stream failed.
    Io(IoFailure),
    /// The body is not a frame message.
    Decode(BodyError),
}

/// What a [`FramingError`] says.
pub enum FramingErrorModel {
    /// The framing byte is not [`ENVELOPE_VERSION`].
    UnsupportedFramingVersion {
        /// Byte that was received.
        got: u8,
        /// Byte that this codec expects.
        expected: u8,
    },
    /// The body is longer than the cap.
    FrameTooLarge {
        /// Length of the body.
        body_length: usize,
        /// Cap that applied.
        cap: usize,
    },
    /// The stream ended before the frame was complete.
    UnexpectedEof {
        /// Part that was incomplete.
        context: FramePart,
    },
    /// The stream failed, with this class and text.
    Io(ErrorKind, Option<i32>, Seq<char>),
    /// The body is not a frame message, with this text.
    Decode(Seq<char>),
}

impl View for FramingError {
    type V = FramingErrorModel;

    open spec fn view(&self) -> FramingErrorModel {
        match *self {
            FramingError::UnsupportedFramingVersion { got, expected } =>
                FramingErrorModel::UnsupportedFramingVersion { got, expected },
            FramingError::FrameTooLarge { body_length, cap } => FramingErrorModel::FrameTooLarge {
                body_length,
                cap,
            },
            FramingError::UnexpectedEof { context } => FramingErrorModel::UnexpectedEof { context },
            FramingError::Io(failure) => FramingErrorModel::Io(
                failure.kind,
                failure.raw_os_error,
                failure.text@,
            ),
            FramingError::Decode(e) => FramingErrorModel::Decode(e@),
        }
    }
}

impl FramingError {
    /// The text of this error.
    pub open spec fn spec_message(self) -> Seq<char> {
        match self {
            FramingError::UnsupportedFramingVersion { got, expected } =>
                "unsupported framing version: got "@ + decimal(got as nat) + ", expected "@ + decimal(
                    expected as nat,
                ),
            FramingError::FrameTooLarge { body_length, cap } => "frame body too large: "@ + decimal(
                body_length as nat,
            ) + " bytes exceeds cap "@ + decimal(cap as nat),
            FramingError::UnexpectedEof { context } => "unexpected EOF while reading frame ("@
                + context.spec_str() + ")"@,
            FramingError::Io(failure) => "I/O error: "@ + failure.text@,
            FramingError::Decode(e) => "failed to decode Frame body: "@ + e@,
        }
    }

    /// The text of this error.
    pub fn message(&self) -> (m: String)
        ensures
            m@ == self.spec_message(),
    {
        let mut m: String = String::new();
        match self {
            FramingError::UnsupportedFramingVersion { got, expected } => {
                m.append("unsupported framing version: got ");
                append_decimal(&mut m, *got as u128);
                m.append(", expected ");
                append_decimal(&mut m, *expected as u128);
            },
            FramingError::FrameTooLarge { body_length, cap } => {
                m.append("frame body too large: ");
                append_decimal(&mut m, *body_length as u128);
                m.append(" bytes exceeds cap ");
                append_decimal(&mut m, *cap as u128);
            },
            FramingError::UnexpectedEof { context } => {
                m.append("unexpected EOF while reading frame (");
                m.append(context.as_str());
                m.append(")");
            },
            FramingError::Io(failure) => {
                m.append("I/O error: ");
                m.append(failure.text.as_str());
            },
            FramingError::Decode(e) => {
                m.append("failed to decode Frame body: ");
                m.append(e.message());
            },
        }
        assert(m@ =~= self.spec_message());
        m
    }
}

/// A body with its outer header.
pub open spec fn enveloped(body: Seq<u8>) -> Seq<u8> {
    seq![ENVELOPE_VERSION] + (le_u32(body.len() as u32) + body)
}

/// A frame on the wire.
pub open spec fn framed(f: FrameModel) -> Seq<u8> {
    enveloped(frame_body(f))
}

/// The error for a body that is longer than `cap`.
pub open spec fn too_large(body_length: nat, cap: usize) -> FramingErrorModel {
    FramingErrorModel::FrameTooLarge { body_length: body_length as usize, cap }
}

fn envelope(body: &[u8]) -> (wire: Vec<u8>)
    requires
        body@.len() <= MAX_FRAME_BYTES,
    ensures
        wire@ == enveloped(body@),
{
    let mut wire: Vec<u8> = Vec::new();
    wire.push(ENVELOPE_VERSION);
    append_u32_le(&mut wire, body.len() as u32);
    append_bytes(&mut wire, body);
    assert(wire@ =~= enveloped(body@));
    wire
}

/// Encodes one frame into complete wire bytes.
pub fn encode_framed(frame: &Frame) -> (r: Result<Vec<u8>, FramingError>)
    ensures
        match r {
            Ok(wire) => frame_body(frame@).len() <= MAX_FRAME_BYTES && wire@ == framed(frame@),
            Err(e) => frame_body(frame@).len() > MAX_FRAME_BYTES && e@ == too_large(
                frame_body(frame@).len(),
                MAX_FRAME_BYTES,
            ),
        },
{
    let body = frame.encode_body();
    if body.len() > MAX_FRAME_BYTES {
        return Err(FramingError::FrameTooLarge { body_length: body.len(), cap: MAX_FRAME_BYTES });
    }
    Ok(envelope(&body))
}

/// One frame decoded from the front of a buffer.
#[derive(Clone, Debug, PartialEq, Eq)]
pub struct DecodedFramed {
    /// The decoded frame.
    pub frame: Frame,
    /// Bytes that the header and the body occupy.
    pub consumed: usize,
}

/// What the front of a buffer decodes to: a frame with the number of bytes that
/// it occupies, `None` while bytes are missing, or a terminal error.
pub open spec fn parse_framed(buf: Seq<u8>) -> Result<Option<(FrameModel, nat)>, FramingErrorModel> {
    if buf.len() == 0 {
        Ok(None)
    } else if buf[0] != ENVELOPE_VERSION {
        Err(FramingErrorModel::UnsupportedFramingVersion { got: buf[0], expected: ENVELOPE_VERSION })
    } else if buf.len() < FRAME_HEADER_BYTES {
        Ok(None)
    } else {
        let body_len = u32_at(buf, 1);
        if body_len > MAX_FRAME_BYTES {
            Err(too_large(body_len as nat, MAX_FRAME_BYTES))
        } else if buf.len() < FRAME_HEADER_BYTES + body_len {
            Ok(None)
        } else {
            match parse_frame_body(buf.subrange(5, 5 + body_len)) {
                Ok(f) => Ok(Some((f, (5 + body_len) as nat))),
                Err(e) => Err(FramingErrorModel::Decode(e)),
            }
        }
    }
}

/// Decodes one frame from the front of `buf`.
pub fn try_decode_framed(buf: &[u8]) -> (r: Result<Option<DecodedFramed>, FramingError>)
    ensures
        match r {
            Ok(Some(d)) => parse_framed(buf@) == Ok::<Option<(FrameModel, nat)>, FramingErrorModel>(
                Some((d.frame@, d.consumed as nat)),
            ),
            Ok(None) => parse_framed(buf@) == Ok::<Option<(FrameModel, nat)>, FramingErrorModel>(
                None,
            ),
            Err(e) => parse_framed(buf@) == Err::<Option<(FrameModel, nat)>, FramingErrorModel>(e@),
        },
{
    if buf.len() == 0 {
        return Ok(None);
    }
    if buf[0] != ENVELOPE_VERSION {
        return Err(
            FramingError::UnsupportedFramingVersion { got: buf[0], expected: ENVELOPE_VERSION },
        );
    }
    if buf.len() < FRAME_HEADER_BYTES {
        return Ok(None);
    }
    let body_len: usize = read_u32_le(buf, 1) as usize;
    if body_len > MAX_FRAME_BYTES {
        return Err(FramingError::FrameTooLarge { body_length: body_len, cap: MAX_FRAME_BYTES });
    }
    let total: usize = FRAME_HEADER_BYTES + body_len;
    if buf.len() < total {
        return Ok(None);
    }
    match Frame::decode_body(&buf[FRAME_HEADER_BYTES..total]) {
        Ok(frame) => Ok(Some(DecodedFramed { frame, consumed: total })),
        Err(e) => Err(FramingError::Decode(e)),
    }
}

/// What a reader does next, given the header bytes that it has.
#[derive(Clone, Debug, PartialEq, Eq)]
pub enum FrameStep {
    /// Read exactly this many bytes; a stream that ends first ended in `context`.
    Read {
        /// Number of bytes.
        count: usize,
        /// Part that these bytes are.
        context: FramePart,
    },
    /// The body is complete.
    Done,
    /// The frame is refused before anything is allocated for it.
    Fail(FramingError),
}

/// What a reader does next after `have`, the bytes of the frame that it has.
pub open spec fn next_step(have: Seq<u8>, cap: usize) -> FrameStep {
    if have.len() == 0 {
        FrameStep::Read { count: 1, context: FramePart::FramingByte }
    } else if have[0] != ENVELOPE_VERSION {
        FrameStep::Fail(
            FramingError::UnsupportedFramingVersion { got: have[0], expected: ENVELOPE_VERSION },
        )
    } else if have.len() < FRAME_HEADER_BYTES {
        FrameStep::Read {
            count: (FRAME_HEADER_BYTES - have.len()) as usize,
            context: FramePart::BodyLengthHeader,
        }
    } else if u32_at(have, 1) > cap {
        FrameStep::Fail(FramingError::FrameTooLarge { body_length: u32_at(have, 1) as usize, cap })
    } else if have.len() < FRAME_HEADER_BYTES + u32_at(have, 1) {
        FrameStep::Read {
            count: (FRAME_HEADER_BYTES + u32_at(have, 1) - have.len()) as usize,
            context: FramePart::FrameBody,
        }
    } else {
        FrameStep::Done
    }
}

/// Decides what a reader does next.
pub fn frame_step(have: &[u8], cap: usize) -> (step: FrameStep)
    ensures
        step == next_step(have@, cap),
{
    if have.len() == 0 {
        return FrameStep::Read { count: 1, context: FramePart::FramingByte };
    }
    if have[0] != ENVELOPE_VERSION {
        return FrameStep::Fail(
            FramingError::UnsupportedFramingVersion { got: have[0], expected: ENVELOPE_VERSION },
        );
    }
    if have.len() < FRAME_HEADER_BYTES {
        return FrameStep::Read {
            count: FRAME_HEADER_BYTES - have.len(),
            context: FramePart::BodyLengthHeader,
        };
    }
    let body_length: usize = read_u32_le(have, 1) as usize;
    if body_length > cap {
        return FrameStep::Fail(FramingError::FrameTooLarge { body_length, cap });
    }
    let body_had: usize = have.len() - FRAME_HEADER_BYTES;
    if body_had < body_length {
        return FrameStep::Read { count: body_length - body_had, context: FramePart::FrameBody };
    }
    FrameStep::Done
}

/// What a failed read of one part of a frame is: the stream ended there, or it
/// failed.
pub fn read_failed(context: FramePart, failure: IoFailure) -> (e: FramingError)
    ensures
        e == if failure.kind == ErrorKind::UnexpectedEof {
            FramingError::UnexpectedEof { context }
        } else {
            FramingError::Io(failure)
        },
{
    if failure.kind == ErrorKind::UnexpectedEof {
        FramingError::UnexpectedEof { context }
    } else {
        FramingError::Io(failure)
    }
}

/// What a failed write of a frame is.
pub fn write_failed(failure: IoFailure) -> (e: FramingError)
    ensures
        e == FramingError::Io(failure),
{
    FramingError::Io(failure)
}

/// What reading one body gives from a stream that delivers `stream` and ends.
pub open spec fn read_result(stream: Seq<u8>, cap: usize) -> Result<Seq<u8>, FramingErrorModel> {
    if stream.len() < 1 {
        Err(FramingErrorModel::UnexpectedEof { context: FramePart::FramingByte })
    } else if stream[0] != ENVELOPE_VERSION {
        Err(FramingErrorModel::UnsupportedFramingVersion { got: stream[0], expected: ENVELOPE_VERSION })
    } else if stream.len() < FRAME_HEADER_BYTES {
        Err(FramingErrorModel::UnexpectedEof { context: FramePart::BodyLengthHeader })
    } else if u32_at(stream, 1) > cap {
        Err(too_large(u32_at(stream, 1) as nat, cap))
    } else if stream.len() < FRAME_HEADER_BYTES + u32_at(stream, 1) {
        Err(FramingErrorModel::UnexpectedEof { context: FramePart::FrameBody })
    } else {
        Ok(stream.subrange(5, 5 + u32_at(stream, 1)))
    }
}

/// Reads one frame body from the front of what a stream delivered until it
/// ended, refusing an announced size above `max_bytes`.
pub fn read_frame_with_cap(stream: &[u8], max_bytes: usize) -> (r: Result<Vec<u8>, FramingError>)
    ensures
        match r {
            Ok(body) => read_result(stream@, max_bytes) == Ok::<Seq<u8>, FramingErrorModel>(body@),
            Err(e) => read_result(stream@, max_bytes) == Err::<Seq<u8>, FramingErrorModel>(e@),
        },
{
    if stream.len() < 1 {
        return Err(FramingError::UnexpectedEof { context: FramePart::FramingByte });
    }
    if stream[0] != ENVELOPE_VERSION {
        return Err(
            FramingError::UnsupportedFramingVersion { got: stream[0], expected: ENVELOPE_VERSION },
        );
    }
    if stream.len() < FRAME_HEADER_BYTES {
        return Err(FramingError::UnexpectedEof { context: FramePart::BodyLengthHeader });
    }
    let body_length: usize = read_u32_le(stream, 1) as usize;
    if body_length > max_bytes {
        return Err(FramingError::FrameTooLarge { body_length, cap: max_bytes });
    }
    if stream.len() - FRAME_HEADER_BYTES < body_length {
        return Err(FramingError::UnexpectedEof { context: FramePart::FrameBody });
    }
    Ok(copy_bytes(&stream[FRAME_HEADER_BYTES..FRAME_HEADER_BYTES + body_length]))
}

/// Reads one frame body with the default cap.
pub fn read_frame(stream: &[u8]) -> (r: Result<Vec<u8>, FramingError>)
    ensures
        match r {
            Ok(body) => read_result(stream@, MAX_FRAME_BYTES) == Ok::<Seq<u8>, FramingErrorModel>(body@),
            Err(e) => read_result(stream@, MAX_FRAME_BYTES) == Err::<Seq<u8>, FramingErrorModel>(e@),
        },
{
    read_frame_with_cap(stream, MAX_FRAME_BYTES)
}

/// The bytes to write for one frame body; their number is what a writer reports.
pub fn write_frame(body: &[u8]) -> (r: Result<Vec<u8>, FramingError>)
    ensures
        match r {
            Ok(wire) => body@.len() <= MAX_FRAME_BYTES && wire@ == enveloped(body@),
            Err(e) => body@.len() > MAX_FRAME_BYTES && e@ == too_large(body@.len(), MAX_FRAME_BYTES),
        },
{
    if body.len() > MAX_FRAME_BYTES {
        return Err(FramingError::FrameTooLarge { body_length: body.len(), cap: MAX_FRAME_BYTES });
    }
    Ok(envelope(body))
}

proof fn lemma_take_numeric(f: FrameModel, tag: u32, v: u64, rest: Seq<u8>)
    requires
        1 <= tag <= 7,
        tag != 4,
    ensures
        take_fields(f, numeric_field(tag as nat, v) + rest) == take_fields(
            if v == 0 {
                f
            } else {
                with_number(f, tag, v)
            },
            rest,
        ),
{
    if v == 0 {
        assert(numeric_field(tag as nat, v) + rest =~= rest);
    } else {
        let key = varint((tag * 8) as nat);
        let content = varint(v as nat) + rest;
        let s = numeric_field(tag as nat, v) + rest;
        lemma_append_assoc(key, varint(v as nat), rest);
        assert(s == key + content);
        lemma_parse_key_prefix(tag, VARINT, content);
        lemma_parse_varint_prefix(v, rest);
        lemma_parse_varint_prefix((tag * 8) as u64, content);
        assert(s.len() > rest.len());
    }
}

proof fn lemma_take_run(f: FrameModel, tag: u32, run: Seq<u8>, rest: Seq<u8>)
    requires
        tag == 4 || tag == 8 || tag == 9,
        tag != 4 ==> valid_utf8(run),
        run.len() <= u64::MAX,
    ensures
        take_fields(f, run_field(tag as nat, run) + rest) == take_fields(
            if run.len() == 0 {
                f
            } else if tag == 4 {
                FrameModel { payload: run, ..f }
            } else if tag == 8 {
                FrameModel { traceparent: decode_utf8(run), ..f }
            } else {
                FrameModel { tracestate: decode_utf8(run), ..f }
            },
            rest,
        ),
{
    if run.len() == 0 {
        assert(run_field(tag as nat, run) + rest =~= rest);
    } else {
        let key = varint((tag * 8 + 2) as nat);
        let content = (varint(run.len()) + run) + rest;
        let s = run_field(tag as nat, run) + rest;
        lemma_append_assoc(key, varint(run.len()) + run, rest);
        assert(s == key + content);
        lemma_parse_key_prefix(tag, LENGTH_DELIMITED, content);
        lemma_parse_run_prefix(run, rest);
        lemma_parse_varint_prefix((tag * 8 + 2) as u64, content);
        assert(s.len() > rest.len());
    }
}

proof fn lemma_utf8_text(text: Seq<char>)
    ensures
        valid_utf8(encode_utf8(text)),
        decode_utf8(encode_utf8(text)) == text,
        encode_utf8(text).len() == 0 <==> text.len() == 0,
{
    encode_utf8_valid_utf8(text);
    encode_utf8_decode_utf8(text);
}

/// Field number `k` of a body.
spec fn body_field(f: FrameModel, k: int) -> Seq<u8> {
    if k == 1 {
        numeric_field(1, f.envelope_version as u64)
    } else if k == 2 {
        numeric_field(2, wire_i32(f.kind))
    } else if k == 3 {
        numeric_field(3, f.payload_protocol as u64)
    } else if k == 4 {
        run_field(4, f.payload)
    } else if k == 5 {
        numeric_field(5, f.request_id)
    } else if k == 6 {
        numeric_field(6, wire_i32(f.payload_encoding))
    } else if k == 7 {
        numeric_field(7, f.deadline_unix_ms)
    } else if k == 8 {
        run_field(8, encode_utf8(f.traceparent))
    } else {
        run_field(9, encode_utf8(f.tracestate))
    }
}

/// The first `k` fields of a frame; the others have their default.
spec fn partial(f: FrameModel, k: int) -> FrameModel {
    FrameModel {
        envelope_version: if k >= 1 { f.envelope_version } else { 0 },
        kind: if k >= 2 { f.kind } else { 0 },
        payload_protocol: if k >= 3 { f.payload_protocol } else { 0 },
        payload: if k >= 4 { f.payload } else { Seq::empty() },
        request_id: if k >= 5 { f.request_id } else { 0 },
        payload_encoding: if k >= 6 { f.payload_encoding } else { 0 },
        deadline_unix_ms: if k >= 7 { f.deadline_unix_ms } else { 0 },
        traceparent: if k >= 8 { f.traceparent } else { Seq::empty() },
        tracestate: if k >= 9 { f.tracestate } else { Seq::empty() },
    }
}

proof fn lemma_take_body_number(f: FrameModel, k: int, v: u64, rest: Seq<u8>)
    requires
        1 <= k <= 7,
        k != 4,
        body_field(f, k) == numeric_field(k as nat, v),
        partial(f, k) == with_number(partial(f, k - 1), k as u32, v),
        v == 0 ==> partial(f, k) == partial(f, k - 1),
    ensures
        take_fields(partial(f, k - 1), body_field(f, k) + rest) == take_fields(partial(f, k), rest),
{
    lemma_take_numeric(partial(f, k - 1), k as u32, v, rest);
}

proof fn lemma_take_body_field(f: FrameModel, k: int, rest: Seq<u8>)
    requires
        1 <= k <= 9,
        body_field(f, k).len() <= u64::MAX,
    ensures
        take_fields(partial(f, k - 1), body_field(f, k) + rest) == take_fields(partial(f, k), rest),
{
    let before = partial(f, k - 1);
    let after = partial(f, k);
    if k == 4 {
        lemma_run_len(4, f.payload);
        assert(f.payload.len() == 0 ==> f.payload =~= Seq::<u8>::empty());
        lemma_take_run(before, 4, f.payload, rest);
    } else if k == 8 {
        lemma_utf8_text(f.traceparent);
        lemma_run_len(8, encode_utf8(f.traceparent));
        assert(f.traceparent.len() == 0 ==> f.traceparent =~= Seq::<char>::empty());
        lemma_take_run(before, 8, encode_utf8(f.traceparent), rest);
    } else if k == 9 {
        lemma_utf8_text(f.tracestate);
        lemma_run_len(9, encode_utf8(f.tracestate));
        assert(f.tracestate.len() == 0 ==> f.tracestate =~= Seq::<char>::empty());
        lemma_take_run(before, 9, encode_utf8(f.tracestate), rest);
    } else {
        lemma_i32_round_trip(f.kind);
        lemma_i32_round_trip(f.payload_encoding);
        let v = if k == 1 {
            f.envelope_version as u64
        } else if k == 2 {
            wire_i32(f.kind)
        } else if k == 3 {
            f.payload_protocol as u64
        } else if k == 5 {
            f.request_id
        } else if k == 6 {
            wire_i32(f.payload_encoding)
        } else {
            f.deadline_unix_ms
        };
        lemma_take_body_number(f, k, v, rest);
    }
}

proof fn lemma_body_lens(
    a: Seq<u8>,
    b: Seq<u8>,
    c: Seq<u8>,
    d: Seq<u8>,
    e: Seq<u8>,
    f: Seq<u8>,
    g: Seq<u8>,
    h: Seq<u8>,
    i: Seq<u8>,
)
    ensures
        (a + (b + (c + (d + (e + (f + (g + (h + i)))))))).len() == a.len() + b.len() + c.len() + d.len()
            + e.len() + f.len() + g.len() + h.len() + i.len(),
{
}

/// Decoding an encoded body gives the frame back.
pub proof fn law_body_round_trip(f: FrameModel)
    requires
        frame_body(f).len() <= u64::MAX,
    ensures
        parse_frame_body(frame_body(f)) == Ok::<FrameModel, Seq<char>>(f),
{
    let b1 = body_field(f, 1);
    let b2 = body_field(f, 2);
    let b3 = body_field(f, 3);
    let b4 = body_field(f, 4);
    let b5 = body_field(f, 5);
    let b6 = body_field(f, 6);
    let b7 = body_field(f, 7);
    let b8 = body_field(f, 8);
    let b9 = body_field(f, 9);
    assert(frame_body(f) == b1 + (b2 + (b3 + (b4 + (b5 + (b6 + (b7 + (b8 + b9))))))));
    lemma_body_lens(b1, b2, b3, b4, b5, b6, b7, b8, b9);
    lemma_take_all(f, b1, b2, b3, b4, b5, b6, b7, b8, b9);
    assert(partial(f, 0) =~= empty_frame());
    assert(partial(f, 9) =~= f);
}

proof fn lemma_take_all(
    f: FrameModel,
    b1: Seq<u8>,
    b2: Seq<u8>,
    b3: Seq<u8>,
    b4: Seq<u8>,
    b5: Seq<u8>,
    b6: Seq<u8>,
    b7: Seq<u8>,
    b8: Seq<u8>,
    b9: Seq<u8>,
)
    requires
        b1 == body_field(f, 1),
        b2 == body_field(f, 2),
        b3 == body_field(f, 3),
        b4 == body_field(f, 4),
        b5 == body_field(f, 5),
        b6 == body_field(f, 6),
        b7 == body_field(f, 7),
        b8 == body_field(f, 8),
        b9 == body_field(f, 9),
        b1.len() + b2.len() + b3.len() + b4.len() + b5.len() + b6.len() + b7.len() + b8.len()
            + b9.len() <= u64::MAX,
    ensures
        take_fields(partial(f, 0), b1 + (b2 + (b3 + (b4 + (b5 + (b6 + (b7 + (b8 + b9)))))))) == Ok::<
            FrameModel,
            Seq<char>,
        >(partial(f, 9)),
{
    let none = Seq::<u8>::empty();
    let s8 = b8 + b9;
    let s7 = b7 + s8;
    let s6 = b6 + s7;
    let s5 = b5 + s6;
    let s4 = b4 + s5;
    let s3 = b3 + s4;
    let s2 = b2 + s3;
    lemma_take_body_field(f, 1, s2);
    lemma_take_body_field(f, 2, s3);
    lemma_take_body_field(f, 3, s4);
    lemma_take_body_field(f, 4, s5);
    lemma_take_body_field(f, 5, s6);
    lemma_take_body_field(f, 6, s7);
    lemma_take_body_field(f, 7, s8);
    lemma_take_body_field(f, 8, b9);
    lemma_take_body_field(f, 9, none);
    assert(b9 + none =~= b9);
    assert(take_fields(partial(f, 9), none) == Ok::<FrameModel, Seq<char>>(partial(f, 9)));
}

proof fn lemma_i32_round_trip(v: i32)
    ensures
        unwire_i32(wire_i32(v)) == v,
        wire_i32(v) == 0 <==> v == 0,
{
}

proof fn lemma_run_len(tag: nat, run: Seq<u8>)
    ensures
        run_field(tag, run).len() >= run.len(),
{
}

/// A frame within the cap is decoded from its wire bytes, whatever follows
/// them, and exactly its own bytes are consumed.
pub proof fn law_framed_round_trip(f: FrameModel, rest: Seq<u8>)
    requires
        frame_body(f).len() <= MAX_FRAME_BYTES,
    ensures
        parse_framed(framed(f) + rest) == Ok::<Option<(FrameModel, nat)>, FramingErrorModel>(
            Some((f, framed(f).len())),
        ),
{
    let body = frame_body(f);
    let buf = framed(f) + rest;
    law_body_round_trip(f);
    lemma_header(body, rest);
    assert(buf.subrange(5, 5 + body.len() as int) =~= body);
}

proof fn lemma_header(body: Seq<u8>, rest: Seq<u8>)
    requires
        body.len() <= MAX_FRAME_BYTES,
    ensures
        (enveloped(body) + rest)[0] == ENVELOPE_VERSION,
        enveloped(body).len() == 5 + body.len(),
        u32_at(enveloped(body) + rest, 1) == body.len(),
{
    let buf = enveloped(body) + rest;
    assert(buf.skip(1) =~= le_u32(body.len() as u32) + (body + rest));
    crate::wire::lemma_u32_at_prefix(body.len() as u32, body + rest);
    crate::wire::lemma_u32_at_shift(buf, 1);
}

/// Every proper prefix of a frame asks for more bytes.
pub proof fn law_prefix_needs_more_bytes(f: FrameModel, n: int)
    requires
        frame_body(f).len() <= MAX_FRAME_BYTES,
        0 <= n < framed(f).len(),
    ensures
        parse_framed(framed(f).take(n)) == Ok::<Option<(FrameModel, nat)>, FramingErrorModel>(None),
{
    let body = frame_body(f);
    let wire = framed(f);
    assert(wire + Seq::<u8>::empty() =~= wire);
    lemma_header(body, Seq::<u8>::empty());
    if n >= 5 {
        lemma_u32_at_take(wire, n);
    }
}

proof fn lemma_u32_at_take(s: Seq<u8>, n: int)
    requires
        5 <= n <= s.len(),
    ensures
        u32_at(s.take(n), 1) == u32_at(s, 1),
{
    reveal(u32_at);
}

/// Decoding never looks past the frame: once a buffer decodes or is refused,
/// more bytes do not change the outcome.
pub proof fn law_outcome_is_stable(buf: Seq<u8>, rest: Seq<u8>)
    requires
        !(parse_framed(buf) matches Ok(None)),
    ensures
        parse_framed(buf + rest) == parse_framed(buf),
        parse_framed(buf) matches Ok(Some((f, n))) ==> n <= buf.len(),
{
    let more = buf + rest;
    if buf.len() >= 5 {
        assert(more.take(buf.len() as int) =~= buf);
        lemma_u32_at_take(more, buf.len() as int);
        let body_len = u32_at(buf, 1);
        if buf.len() >= 5 + body_len {
            assert(more.subrange(5, 5 + body_len) =~= buf.subrange(5, 5 + body_len));
        }
    }
}

/// What a writer wrote is what a reader reads, whatever the stream delivers
/// after it.
pub proof fn law_written_body_reads_back(body: Seq<u8>, rest: Seq<u8>)
    requires
        body.len() <= MAX_FRAME_BYTES,
    ensures
        read_result(enveloped(body) + rest, MAX_FRAME_BYTES) == Ok::<Seq<u8>, FramingErrorModel>(body),
{
    lemma_header(body, rest);
    assert((enveloped(body) + rest).subrange(5, 5 + body.len() as int) =~= body);
}

/// A reader that follows the steps takes exactly one frame: each step asks for
/// bytes that the frame still lacks, and it stops at the frame's end.
pub proof fn law_steps_stop_at_the_frame_end(body: Seq<u8>, n: int)
    requires
        body.len() <= MAX_FRAME_BYTES,
        0 <= n <= enveloped(body).len(),
    ensures
        match next_step(enveloped(body).take(n), MAX_FRAME_BYTES) {
            FrameStep::Read { count, .. } => count > 0 && n + count <= enveloped(body).len(),
            FrameStep::Done => n == enveloped(body).len(),
            FrameStep::Fail(_) => false,
        },
{
    let wire = enveloped(body);
    assert(wire + Seq::<u8>::empty() =~= wire);
    lemma_header(body, Seq::<u8>::empty());
    if n >= 5 {
        lemma_u32_at_take(wire, n);
    }
}

/// A frame on the wire begins with a one, then the length of its body in four bytes,
/// the lowest first, then the body.
pub proof fn law_frame_layout(body: Seq<u8>)
    requires
        body.len() <= 16777216,
    ensures
        enveloped(body).len() == body.len() + 5,
        enveloped(body)[0] == 1,
        enveloped(body)[1] + 256 * enveloped(body)[2] + 65536 * enveloped(body)[3] + 16777216
            * enveloped(body)[4] == body.len(),
        enveloped(body).skip(5) == body,
{
    let wire = enveloped(body);
    assert(wire + Seq::<u8>::empty() =~= wire);
    lemma_header(body, Seq::<u8>::empty());
    reveal(u32_at);
    reveal(le_u32);
    assert(wire.skip(5) =~= body);
}

/// A request asks: it is of version one, its kind is zero, and it holds the protocol
/// and the payload that were given, nothing else. The response to a request holds
/// the payload that was given and is otherwise told from others by what it takes
/// over: the number, the protocol and the trace of its request.
pub proof fn law_responses_answer_their_request(
    request: FrameModel,
    payload_protocol: u32,
    payload: Seq<u8>,
)
    ensures
        ({
            let f = request_frame(payload_protocol, payload);
            &&& f.envelope_version == 1
            &&& f.kind == 0
            &&& f.payload_protocol == payload_protocol
            &&& f.payload == payload
            &&& f.request_id == 0
            &&& f.payload_encoding == 0
            &&& f.deadline_unix_ms == 0
            &&& f.traceparent.len() == 0
            &&& f.tracestate.len() == 0
        }),
        ({
            let f = response_frame(request, payload);
            &&& f.envelope_version == 1
            &&& f.kind == 1
            &&& f.payload_protocol == request.payload_protocol
            &&& f.payload == payload
            &&& f.request_id == request.request_id
            &&& f.payload_encoding == 0
            &&& f.deadline_unix_ms == 0
            &&& f.traceparent == request.traceparent
            &&& f.tracestate == request.tracestate
        }),
{
}

/// The numbers of the kinds and of the encodings on the wire.
pub proof fn law_numbers_on_the_wire()
    ensures
        FrameKind::Request.spec_value() == 0,
        FrameKind::Response.spec_value() == 1,
        FrameKind::Event.spec_value() == 2,
        FrameKind::Cancel.spec_value() == 3,
        PayloadEncoding::Unencoded.spec_value() == 0,
        PayloadEncoding::Zstd.spec_value() == 1,
        PayloadEncoding::Snappy.spec_value() == 2,
        PayloadEncoding::Lz4.spec_value() == 3,
{
}

/// A buffer is refused for a reason that it shows: a first byte that is not one, or
/// a length of more than 16 MiB. It decodes to nothing while the length that its
/// header announces is not there.
pub proof fn law_buffers_are_refused_for_a_reason(buf: Seq<u8>)
    ensures
        buf.len() == 0 ==> parse_framed(buf) matches Ok(None),
        buf.len() > 0 && buf[0] != 1 ==> parse_framed(buf) == Err::<
            Option<(FrameModel, nat)>,
            FramingErrorModel,
        >(FramingErrorModel::UnsupportedFramingVersion { got: buf[0], expected: 1 }),
        0 < buf.len() < 5 && buf[0] == 1 ==> parse_framed(buf) matches Ok(None),
        buf.len() >= 5 && buf[0] == 1 ==> {
            let announced = buf[1] + 256 * buf[2] + 65536 * buf[3] + 16777216 * buf[4];
            &&& announced > 16777216 ==> parse_framed(buf) == Err::<
                Option<(FrameModel, nat)>,
                FramingErrorModel,
            >(
                FramingErrorModel::FrameTooLarge {
                    body_length: announced as usize,
                    cap: 16777216,
                },
            )
            &&& announced <= 16777216 && buf.len() < 5 + announced ==> parse_framed(buf) == Ok::<
                Option<(FrameModel, nat)>,
                FramingErrorModel,
            >(None)
            &&& announced <= 16777216 && buf.len() >= 5 + announced ==> (match parse_framed(buf) {
                Ok(Some((_, n))) => n == 5 + announced,
                Ok(None) => false,
                Err(e) => e is Decode,
            })
        },
{
    reveal(u32_at);
}

/// A stream that ends early ended in the part that it did not finish, and a reader
/// accepts no other version and no body above its cap, whose size it does not wait
/// for.
pub proof fn law_streams_fail_for_a_reason(stream: Seq<u8>, cap: usize)
    ensures
        stream.len() == 0 ==> read_result(stream, cap) == Err::<Seq<u8>, FramingErrorModel>(
            FramingErrorModel::UnexpectedEof { context: FramePart::FramingByte },
        ),
        stream.len() > 0 && stream[0] != 1 ==> read_result(stream, cap) == Err::<
            Seq<u8>,
            FramingErrorModel,
        >(FramingErrorModel::UnsupportedFramingVersion { got: stream[0], expected: 1 }),
        0 < stream.len() < 5 && stream[0] == 1 ==> read_result(stream, cap) == Err::<
            Seq<u8>,
            FramingErrorModel,
        >(FramingErrorModel::UnexpectedEof { context: FramePart::BodyLengthHeader }),
        stream.len() >= 5 && stream[0] == 1 ==> {
            let announced = stream[1] + 256 * stream[2] + 65536 * stream[3] + 16777216 * stream[4];
            &&& announced > cap ==> read_result(stream, cap) == Err::<Seq<u8>, FramingErrorModel>(
                FramingErrorModel::FrameTooLarge { body_length: announced as usize, cap },
            )
            &&& announced <= cap && stream.len() < 5 + announced ==> read_result(stream, cap)
                == Err::<Seq<u8>, FramingErrorModel>(
                FramingErrorModel::UnexpectedEof { context: FramePart::FrameBody },
            )
            &&& announced <= cap && stream.len() >= 5 + announced ==> read_result(stream, cap)
                == Ok::<Seq<u8>, FramingErrorModel>(stream.subrange(5, 5 + announced))
        },
{
    reveal(u32_at);
}

/// A reader asks for the first byte, then for what the header still lacks, then for
/// what the body still lacks, and each time for no more than that. It fails on
/// another version and on a body above its cap before it asks for the body.
pub proof fn law_readers_ask_for_what_is_missing(have: Seq<u8>, cap: usize)
    requires
        have.len() <= 4 || have.len() <= 5 + have[1] + 256 * have[2] + 65536 * have[3] + 16777216
            * have[4],
    ensures
        have.len() == 0 ==> next_step(have, cap) == (FrameStep::Read {
            count: 1,
            context: FramePart::FramingByte,
        }),
        have.len() > 0 && have[0] != 1 ==> next_step(have, cap) == FrameStep::Fail(
            FramingError::UnsupportedFramingVersion { got: have[0], expected: 1 },
        ),
        0 < have.len() < 5 && have[0] == 1 ==> next_step(have, cap) == (FrameStep::Read {
            count: (5 - have.len()) as usize,
            context: FramePart::BodyLengthHeader,
        }),
        have.len() >= 5 && have[0] == 1 ==> {
            let announced = have[1] + 256 * have[2] + 65536 * have[3] + 16777216 * have[4];
            let missing = 5 + announced - have.len();
            &&& announced > cap ==> next_step(have, cap) == FrameStep::Fail(
                FramingError::FrameTooLarge { body_length: announced as usize, cap },
            )
            &&& announced <= cap && missing > 0 ==> next_step(have, cap) == (FrameStep::Read {
                count: missing as usize,
                context: FramePart::FrameBody,
            })
            &&& announced <= cap && missing == 0 ==> next_step(have, cap) is Done
        },
{
    reveal(u32_at);
}

/// A field that comes again replaces what came before, and a field of one frame
/// touches no other: what a body decodes to is what its last field of each kind
/// says.
pub proof fn law_later_fields_win(f: FrameModel, tag: u32, v: u64, rest: Seq<u8>)
    requires
        1 <= tag <= 7,
        tag != 4,
        v != 0,
    ensures
        ({
            let g = with_number(f, tag, v);
            &&& take_fields(f, numeric_field(tag as nat, v) + rest) == take_fields(g, rest)
            &&& tag == 1 ==> g.envelope_version as int == v as int % 0x1_0000_0000
            &&& tag != 1 ==> g.envelope_version == f.envelope_version
            &&& tag == 2 && v <= 0x7FFF_FFFF ==> g.kind == v
            &&& tag != 2 ==> g.kind == f.kind
            &&& tag == 3 ==> g.payload_protocol as int == v as int % 0x1_0000_0000
            &&& tag != 3 ==> g.payload_protocol == f.payload_protocol
            &&& tag == 5 ==> g.request_id == v
            &&& tag != 5 ==> g.request_id == f.request_id
            &&& tag == 6 && v <= 0x7FFF_FFFF ==> g.payload_encoding == v
            &&& tag != 6 ==> g.payload_encoding == f.payload_encoding
            &&& tag == 7 ==> g.deadline_unix_ms == v
            &&& tag != 7 ==> g.deadline_unix_ms == f.deadline_unix_ms
            &&& g.payload == f.payload
            &&& g.traceparent == f.traceparent
            &&& g.tracestate == f.tracestate
        }),
{
    lemma_take_numeric(f, tag, v, rest);
}

/// The payload and the trace headers stand under the numbers 4, 8 and 9, as bytes
/// and as texts.
pub proof fn law_runs_fill_their_field(f: FrameModel, run: Seq<u8>, text: Seq<char>, rest: Seq<u8>)
    requires
        0 < run.len() <= u64::MAX,
        0 < text.len(),
        encode_utf8(text).len() <= u64::MAX,
    ensures
        take_fields(f, run_field(4, run) + rest) == take_fields(
            FrameModel { payload: run, ..f },
            rest,
        ),
        take_fields(f, run_field(8, encode_utf8(text)) + rest) == take_fields(
            FrameModel { traceparent: text, ..f },
            rest,
        ),
        take_fields(f, run_field(9, encode_utf8(text)) + rest) == take_fields(
            FrameModel { tracestate: text, ..f },
            rest,
        ),
{
    lemma_utf8_text(text);
    lemma_take_run(f, 4, run, rest);
    lemma_take_run(f, 8, encode_utf8(text), rest);
    lemma_take_run(f, 9, encode_utf8(text), rest);
}

/// A negative kind or encoding travels as its two's complement in 64 bits.
pub proof fn law_signed_numbers_are_extended(v: i32)
    ensures
        v >= 0 ==> wire_i32(v) == v,
        v < 0 ==> wire_i32(v) == 0xFFFF_FFFF_FFFF_FFFF + v + 1,
        unwire_i32(wire_i32(v)) == v,
{
    lemma_i32_round_trip(v);
}

} // verus!

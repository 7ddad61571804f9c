//! Daemon-frame semantics for application-owned connections.
//!
//! The codec keeps the exact `[1][u32 LE body length][frame body]` layout of
//! [`crate::frame_v1`]. Applications keep their endpoint, their payload
//! identifiers and their I/O policy.

use crate::frame_v1::{
    encode_framed, frame_body, framed, parse_framed, registry, request_frame,
    response_frame, try_decode_framed, Frame, FrameKind, FrameModel, FramingError, FramingErrorModel, PayloadEncoding,
    ENVELOPE_VERSION, MAX_FRAME_BYTES,
};
use crate::text::{append_decimal, chars_of, decimal, split_on, split_ranges};
use crate::wire::copy_bytes;
use vstd::prelude::*;
use vstd::string::*;

verus! {

/// Outer framing byte of a daemon frame.
pub const DAEMON_FRAME_V1_VERSION: u8 = ENVELOPE_VERSION;

/// Largest daemon-frame body (16 MiB).
pub const DAEMON_FRAME_V1_MAX_BODY_BYTES: usize = MAX_FRAME_BYTES;

/// A v1 daemon envelope.
///
/// `kind` and `payload_encoding` stay raw discriminants, and trace headers are
/// kept as they came: decoding and encoding again keeps their bytes.
#[derive(Clone, Debug, PartialEq, Eq)]
pub struct DaemonFrame {
    envelope_version: u32,
    kind: i32,
    payload_protocol: u32,
    payload: Vec<u8>,
    request_id: u64,
    payload_encoding: i32,
    deadline_unix_ms: u64,
    traceparent: String,
    tracestate: String,
}

impl View for DaemonFrame {
    type V = FrameModel;

    closed spec fn view(&self) -> FrameModel {
        FrameModel {
            envelope_version: self.envelope_version,
            kind: self.kind,
            payload_protocol: self.payload_protocol,
            payload: self.payload@,
            request_id: self.request_id,
            payload_encoding: self.payload_encoding,
            deadline_unix_ms: self.deadline_unix_ms,
            traceparent: self.traceparent@,
            tracestate: self.tracestate@,
        }
    }
}

/// Meaning of a raw frame kind; an unknown value is kept.
#[derive(Clone, Copy, Debug, PartialEq, Eq, Structural)]
pub enum DaemonFrameKind {
    /// A request that expects a correlated response.
    Request,
    /// A response to a prior request.
    Response,
    /// An event that the daemon raised.
    Event,
    /// A request to cancel an operation in flight.
    Cancel,
    /// A raw kind without a v1 meaning.
    Unknown(i32),
}

/// Meaning of a raw payload encoding; an unknown value is kept.
#[derive(Clone, Copy, Debug, PartialEq, Eq, Structural)]
pub enum DaemonPayloadEncoding {
    /// Opaque bytes.
    Unencoded,
    /// Zstandard.
    Zstd,
    /// Snappy.
    Snappy,
    /// LZ4.
    Lz4,
    /// A raw encoding without a v1 meaning.
    Unknown(i32),
}

/// Meaning of a raw frame kind.
pub open spec fn classified_kind(kind: i32) -> DaemonFrameKind {
    if kind == FrameKind::Request.spec_value() {
        DaemonFrameKind::Request
    } else if kind == FrameKind::Response.spec_value() {
        DaemonFrameKind::Response
    } else if kind == FrameKind::Event.spec_value() {
        DaemonFrameKind::Event
    } else if kind == FrameKind::Cancel.spec_value() {
        DaemonFrameKind::Cancel
    } else {
        DaemonFrameKind::Unknown(kind)
    }
}

/// Meaning of a raw payload encoding.
pub open spec fn classified_encoding(encoding: i32) -> DaemonPayloadEncoding {
    if encoding == PayloadEncoding::Unencoded.spec_value() {
        DaemonPayloadEncoding::Unencoded
    } else if encoding == PayloadEncoding::Zstd.spec_value() {
        DaemonPayloadEncoding::Zstd
    } else if encoding == PayloadEncoding::Snappy.spec_value() {
        DaemonPayloadEncoding::Snappy
    } else if encoding == PayloadEncoding::Lz4.spec_value() {
        DaemonPayloadEncoding::Lz4
    } else {
        DaemonPayloadEncoding::Unknown(encoding)
    }
}

/// The trace and span identifiers of a `traceparent` header: its second and
/// third of exactly four dash-separated fields, if both are nonempty.
pub open spec fn trace_ids(traceparent: Seq<char>) -> Option<(Seq<char>, Seq<char>)> {
    let fields = split_on(traceparent, '-');
    if fields.len() == 4 && fields[1].len() > 0 && fields[2].len() > 0 {
        Some((fields[1], fields[2]))
    } else {
        None
    }
}

/// The positions of the trace and span identifiers.
fn trace_ranges(traceparent: &str) -> (r: Option<((usize, usize), (usize, usize))>)
    ensures
        match r {
            Some((t, s)) => t.0 <= t.1 <= traceparent@.len() && s.0 <= s.1 <= traceparent@.len()
                && trace_ids(traceparent@) == Some(
                (
                    traceparent@.subrange(t.0 as int, t.1 as int),
                    traceparent@.subrange(s.0 as int, s.1 as int),
                ),
            ),
            None => trace_ids(traceparent@) is None,
        },
{
    let chars = chars_of(traceparent);
    let ranges = split_ranges(&chars, '-');
    if ranges.len() != 4 {
        return None;
    }
    let t = ranges[1];
    let s = ranges[2];
    if t.0 == t.1 || s.0 == s.1 {
        return None;
    }
    Some((t, s))
}

/// The `traceparent` header for a trace and a span: version 00, sampled.
pub open spec fn trace_header(trace_id: Seq<char>, span_id: Seq<char>) -> Seq<char> {
    "00-"@ + trace_id + "-"@ + span_id + "-01"@
}

impl DaemonFrame {
    /// A request with the v1 defaults.
    pub fn request(payload_protocol: u32, payload: Vec<u8>) -> (f: DaemonFrame)
        ensures
            f@ == request_frame(payload_protocol, payload@),
    {
        DaemonFrame::from_backend(Frame::request(payload_protocol, payload))
    }

    /// The response to `request`: same correlation, protocol and trace headers.
    pub fn response_to(request: &DaemonFrame, payload: Vec<u8>) -> (f: DaemonFrame)
        ensures
            f@ == response_frame(request@, payload@),
    {
        DaemonFrame::from_backend(Frame::response_to(&request.to_backend(), payload))
    }

    /// Sets the correlation identifier.
    pub fn with_request_id(self, request_id: u64) -> (f: DaemonFrame)
        ensures
            f@ == (FrameModel { request_id, ..self@ }),
    {
        let mut f = self;
        f.request_id = request_id;
        f
    }

    /// Sets the raw frame kind.
    pub fn with_raw_kind(self, kind: i32) -> (f: DaemonFrame)
        ensures
            f@ == (FrameModel { kind, ..self@ }),
    {
        let mut f = self;
        f.kind = kind;
        f
    }

    /// Sets the raw payload encoding.
    pub fn with_raw_payload_encoding(self, payload_encoding: i32) -> (f: DaemonFrame)
        ensures
            f@ == (FrameModel { payload_encoding, ..self@ }),
    {
        let mut f = self;
        f.payload_encoding = payload_encoding;
        f
    }

    /// Sets the absolute deadline in Unix milliseconds.
    pub fn with_deadline_unix_ms(self, deadline_unix_ms: u64) -> (f: DaemonFrame)
        ensures
            f@ == (FrameModel { deadline_unix_ms, ..self@ }),
    {
        let mut f = self;
        f.deadline_unix_ms = deadline_unix_ms;
        f
    }

    /// Sets the trace and span identifiers.
    pub fn with_trace_context(self, trace_id: &str, span_id: &str) -> (f: DaemonFrame)
        ensures
            f@ == (FrameModel { traceparent: trace_header(trace_id@, span_id@), ..self@ }),
    {
        let mut header: String = String::new();
        header.append("00-");
        header.append(trace_id);
        header.append("-");
        header.append(span_id);
        header.append("-01");
        assert(header@ =~= trace_header(trace_id@, span_id@));
        let mut f = self;
        f.traceparent = header;
        f
    }

    /// Sets the opaque trace state.
    pub fn with_trace_state(self, trace_state: &str) -> (f: DaemonFrame)
        ensures
            f@ == (FrameModel { tracestate: trace_state@, ..self@ }),
    {
        let mut f = self;
        f.tracestate = trace_state.to_owned();
        f
    }

    /// Protocol version inside the body.
    pub fn envelope_version(&self) -> (v: u32)
        ensures
            v == self@.envelope_version,
    {
        self.envelope_version
    }

    /// Raw frame kind.
    pub fn kind(&self) -> (v: i32)
        ensures
            v == self@.kind,
    {
        self.kind
    }

    /// Meaning of the raw frame kind.
    pub fn kind_classification(&self) -> (k: DaemonFrameKind)
        ensures
            k == classified_kind(self@.kind),
    {
        if self.kind == FrameKind::Request.value() {
            DaemonFrameKind::Request
        } else if self.kind == FrameKind::Response.value() {
            DaemonFrameKind::Response
        } else if self.kind == FrameKind::Event.value() {
            DaemonFrameKind::Event
        } else if self.kind == FrameKind::Cancel.value() {
            DaemonFrameKind::Cancel
        } else {
            DaemonFrameKind::Unknown(self.kind)
        }
    }

    /// Payload protocol identifier.
    pub fn payload_protocol(&self) -> (v: u32)
        ensures
            v == self@.payload_protocol,
    {
        self.payload_protocol
    }

    /// Payload bytes.
    pub fn payload(&self) -> (v: &[u8])
        ensures
            v@ == self@.payload,
    {
        self.payload.as_slice()
    }

    /// Correlation identifier.
    pub fn request_id(&self) -> (v: u64)
        ensures
            v == self@.request_id,
    {
        self.request_id
    }

    /// Raw payload encoding.
    pub fn payload_encoding(&self) -> (v: i32)
        ensures
            v == self@.payload_encoding,
    {
        self.payload_encoding
    }

    /// Meaning of the raw payload encoding.
    pub fn payload_encoding_classification(&self) -> (k: DaemonPayloadEncoding)
        ensures
            k == classified_encoding(self@.payload_encoding),
    {
        if self.payload_encoding == PayloadEncoding::Unencoded.value() {
            DaemonPayloadEncoding::Unencoded
        } else if self.payload_encoding == PayloadEncoding::Zstd.value() {
            DaemonPayloadEncoding::Zstd
        } else if self.payload_encoding == PayloadEncoding::Snappy.value() {
            DaemonPayloadEncoding::Snappy
        } else if self.payload_encoding == PayloadEncoding::Lz4.value() {
            DaemonPayloadEncoding::Lz4
        } else {
            DaemonPayloadEncoding::Unknown(self.payload_encoding)
        }
    }

    /// Absolute deadline in Unix milliseconds.
    pub fn deadline_unix_ms(&self) -> (v: u64)
        ensures
            v == self@.deadline_unix_ms,
    {
        self.deadline_unix_ms
    }

    /// Trace identifier, if the trace header carries one.
    pub fn trace_id(&self) -> (r: Option<&str>)
        ensures
            match r {
                Some(id) => trace_ids(self@.traceparent) is Some && id@ == (trace_ids(
                    self@.traceparent,
                )->0).0,
                None => trace_ids(self@.traceparent) is None,
            },
    {
        match trace_ranges(self.traceparent.as_str()) {
            Some((t, _)) => Some(self.traceparent.as_str().substring_char(t.0, t.1)),
            None => None,
        }
    }

    /// Span identifier, if the trace header carries one.
    pub fn span_id(&self) -> (r: Option<&str>)
        ensures
            match r {
                Some(id) => trace_ids(self@.traceparent) is Some && id@ == (trace_ids(
                    self@.traceparent,
                )->0).1,
                None => trace_ids(self@.traceparent) is None,
            },
    {
        match trace_ranges(self.traceparent.as_str()) {
            Some((_, s)) => Some(self.traceparent.as_str().substring_char(s.0, s.1)),
            None => None,
        }
    }

    /// Opaque trace state.
    pub fn trace_state(&self) -> (v: &str)
        ensures
            v@ == self@.tracestate,
    {
        self.tracestate.as_str()
    }

    /// The daemon frame with the fields of an envelope.
    pub fn from_backend(frame: Frame) -> (f: DaemonFrame)
        ensures
            f@ == frame@,
    {
        DaemonFrame {
            envelope_version: frame.envelope_version,
            kind: frame.kind,
            payload_protocol: frame.payload_protocol,
            payload: frame.payload,
            request_id: frame.request_id,
            payload_encoding: frame.payload_encoding,
            deadline_unix_ms: frame.deadline_unix_ms,
            traceparent: frame.traceparent,
            tracestate: frame.tracestate,
        }
    }

    /// The envelope with the fields of this frame.
    pub fn to_backend(&self) -> (f: Frame)
        ensures
            f@ == self@,
    {
        Frame {
            envelope_version: self.envelope_version,
            kind: self.kind,
            payload_protocol: self.payload_protocol,
            payload: copy_bytes(&self.payload),
            request_id: self.request_id,
            payload_encoding: self.payload_encoding,
            deadline_unix_ms: self.deadline_unix_ms,
            traceparent: self.traceparent.clone(),
            tracestate: self.tracestate.clone(),
        }
    }
}

/// Why a daemon frame could not be encoded or decoded.
#[derive(Clone, Copy, Debug, PartialEq, Eq, Structural)]
pub enum DaemonFrameError {
    /// The outer framing byte is not the v1 value.
    UnsupportedFrameVersion {
        /// Byte that was received.
        received: u8,
        /// Byte that the codec expects.
        expected: u8,
    },
    /// The body exceeds the v1 bound.
    FrameTooLarge {
        /// Length of the body.
        body_length: usize,
        /// Largest length accepted.
        maximum: usize,
    },
    /// The complete body is not a v1 envelope.
    MalformedFrame,
}

/// How codec errors are reported for daemon frames.
pub open spec fn daemon_error(error: FramingErrorModel) -> DaemonFrameError {
    match error {
        FramingErrorModel::UnsupportedFramingVersion { got, expected } =>
            DaemonFrameError::UnsupportedFrameVersion { received: got, expected },
        FramingErrorModel::FrameTooLarge { body_length, cap } => DaemonFrameError::FrameTooLarge {
            body_length,
            maximum: cap,
        },
        _ => DaemonFrameError::MalformedFrame,
    }
}

impl DaemonFrameError {
    /// The text of this error.
    pub open spec fn spec_message(self) -> Seq<char> {
        match self {
            DaemonFrameError::UnsupportedFrameVersion { received, expected } =>
                "unsupported daemon-frame version "@ + decimal(received as nat) + "; expected "@
                + decimal(expected as nat),
            DaemonFrameError::FrameTooLarge { body_length, maximum } => "daemon-frame body "@
                + decimal(body_length as nat) + " exceeds maximum "@ + decimal(maximum as nat),
            DaemonFrameError::MalformedFrame => "malformed daemon-frame body"@,
        }
    }

    /// The text of this error.
    pub fn message(&self) -> (m: String)
        ensures
            m@ == self.spec_message(),
    {
        let mut m: String = String::new();
        match self {
            DaemonFrameError::UnsupportedFrameVersion { received, expected } => {
                m.append("unsupported daemon-frame version ");
                append_decimal(&mut m, *received as u128);
                m.append("; expected ");
                append_decimal(&mut m, *expected as u128);
            },
            DaemonFrameError::FrameTooLarge { body_length, maximum } => {
                m.append("daemon-frame body ");
                append_decimal(&mut m, *body_length as u128);
                m.append(" exceeds maximum ");
                append_decimal(&mut m, *maximum as u128);
            },
            DaemonFrameError::MalformedFrame => {
                m.append("malformed daemon-frame body");
            },
        }
        assert(m@ =~= self.spec_message());
        m
    }

    fn from_backend(error: FramingError) -> (e: DaemonFrameError)
        ensures
            e == daemon_error(error@),
    {
        match error {
            FramingError::UnsupportedFramingVersion { got, expected } =>
                DaemonFrameError::UnsupportedFrameVersion { received: got, expected },
            FramingError::FrameTooLarge { body_length, cap } => DaemonFrameError::FrameTooLarge {
                body_length,
                maximum: cap,
            },
            _ => DaemonFrameError::MalformedFrame,
        }
    }
}

/// What decoding the front of a buffer gave.
#[derive(Clone, Debug, PartialEq, Eq)]
pub enum DaemonFrameDecode {
    /// The header or the body is incomplete.
    NeedMoreBytes,
    /// One complete frame and the number of bytes that it used.
    Frame {
        /// The decoded frame.
        frame: DaemonFrame,
        /// Bytes that the header and the body occupy.
        consumed: usize,
    },
}

/// Encodes and incrementally decodes [`DaemonFrame`]s.
#[derive(Clone, Copy, Debug, Default)]
pub struct DaemonFrameCodec;

/// What encoding a frame gives.
pub open spec fn encode_result(f: FrameModel) -> Result<Seq<u8>, DaemonFrameError> {
    if frame_body(f).len() <= MAX_FRAME_BYTES {
        Ok(framed(f))
    } else {
        Err(
            DaemonFrameError::FrameTooLarge {
                body_length: frame_body(f).len() as usize,
                maximum: MAX_FRAME_BYTES,
            },
        )
    }
}

/// Whether `r` is `expected`.
pub open spec fn is_encoding(
    r: Result<Vec<u8>, DaemonFrameError>,
    expected: Result<Seq<u8>, DaemonFrameError>,
) -> bool {
    match r {
        Ok(wire) => expected == Ok::<Seq<u8>, DaemonFrameError>(wire@),
        Err(e) => expected == Err::<Seq<u8>, DaemonFrameError>(e),
    }
}

impl DaemonFrameCodec {
    /// Encodes `frame` into its complete wire bytes.
    pub fn encode(frame: &DaemonFrame) -> (r: Result<Vec<u8>, DaemonFrameError>)
        ensures
            is_encoding(r, encode_result(frame@)),
    {
        match encode_framed(&frame.to_backend()) {
            Ok(wire) => Ok(wire),
            Err(e) => Err(DaemonFrameError::from_backend(e)),
        }
    }

    /// Builds and encodes a request.
    pub fn encode_request(payload_protocol: u32, payload: Vec<u8>, request_id: u64) -> (r: Result<
        Vec<u8>,
        DaemonFrameError,
    >)
        ensures
            is_encoding(
                r,
                encode_result(
                    (FrameModel { request_id, ..request_frame(payload_protocol, payload@) }),
                ),
            ),
    {
        DaemonFrameCodec::encode(
            &DaemonFrame::request(payload_protocol, payload).with_request_id(request_id),
        )
    }

    /// Builds and encodes the response to `request`.
    pub fn encode_response_to(request: &DaemonFrame, payload: Vec<u8>) -> (r: Result<
        Vec<u8>,
        DaemonFrameError,
    >)
        ensures
            is_encoding(r, encode_result(response_frame(request@, payload@))),
    {
        DaemonFrameCodec::encode(&DaemonFrame::response_to(request, payload))
    }

    /// Decodes one frame from the front of `buffer`. A partial frame consumes
    /// nothing, and bytes after a complete one are left to the caller.
    pub fn decode(buffer: &[u8]) -> (r: Result<DaemonFrameDecode, DaemonFrameError>)
        ensures
            match r {
                Ok(DaemonFrameDecode::NeedMoreBytes) => parse_framed(buffer@) == Ok::<
                    Option<(FrameModel, nat)>,
                    FramingErrorModel,
                >(None),
                Ok(DaemonFrameDecode::Frame { frame, consumed }) => parse_framed(buffer@) == Ok::<
                    Option<(FrameModel, nat)>,
                    FramingErrorModel,
                >(Some((frame@, consumed as nat))),
                Err(e) => parse_framed(buffer@) is Err && e == daemon_error(
                    parse_framed(buffer@)->Err_0,
                ),
            },
    {
        match try_decode_framed(buffer) {
            Ok(Some(decoded)) => Ok(
                DaemonFrameDecode::Frame {
                    frame: DaemonFrame::from_backend(decoded.frame),
                    consumed: decoded.consumed,
                },
            ),
            Ok(None) => Ok(DaemonFrameDecode::NeedMoreBytes),
            Err(e) => Err(DaemonFrameError::from_backend(e)),
        }
    }
}

/// A frame that encodes is decoded from its wire bytes, whatever follows them;
/// raw kinds, raw encodings and trace headers come back as they were.
pub proof fn law_decode_inverts_encode(f: FrameModel, rest: Seq<u8>)
    requires
        encode_result(f) is Ok,
    ensures
        parse_framed(encode_result(f)->Ok_0 + rest) == Ok::<Option<(FrameModel, nat)>, FramingErrorModel>(
            Some((f, encode_result(f)->Ok_0.len())),
        ),
{
    crate::frame_v1::law_framed_round_trip(f, rest);
}

/// The identifiers that a trace context was built from are the ones that the
/// header carries, as long as they hold no dash and are not empty.
pub proof fn law_trace_context_round_trip(trace_id: Seq<char>, span_id: Seq<char>)
    requires
        trace_id.len() > 0,
        span_id.len() > 0,
        !trace_id.contains('-'),
        !span_id.contains('-'),
    ensures
        trace_ids(trace_header(trace_id, span_id)) == Some((trace_id, span_id)),
{
    reveal_strlit("00-");
    reveal_strlit("-");
    reveal_strlit("-01");
    let version = seq!['0', '0'];
    let flags = seq!['0', '1'];
    let dash = seq!['-'];
    let s0 = version;
    let s1 = s0 + dash + trace_id;
    let s2 = s1 + dash + span_id;
    let s3 = s2 + dash + flags;
    lemma_split_one(version);
    lemma_split_add(s0, trace_id);
    lemma_split_add(s1, span_id);
    lemma_split_add(s2, flags);
    assert(trace_header(trace_id, span_id) =~= s3);
    let parts = seq![version, trace_id, span_id, flags];
    assert(split_on(s3, '-') =~= parts);
}

/// A header whose identifiers hold a dash, or one of which is empty, carries
/// neither identifier.
pub proof fn law_unusable_identifiers_are_not_carried(trace_id: Seq<char>, span_id: Seq<char>)
    requires
        trace_id.len() == 0 || span_id.len() == 0 || trace_id.contains('-') || span_id.contains(
            '-',
        ),
    ensures
        trace_ids(trace_header(trace_id, span_id)) is None,
{
    reveal_strlit("00-");
    reveal_strlit("-");
    reveal_strlit("-01");
    let version = seq!['0', '0'];
    let flags = seq!['0', '1'];
    let dash = seq!['-'];
    let s1 = version + dash + trace_id;
    let s2 = s1 + dash + span_id;
    lemma_split_join(version, trace_id);
    lemma_split_join(s1, span_id);
    lemma_split_join(s2, flags);
    lemma_split_one(version);
    lemma_split_one(flags);
    lemma_split_len(trace_id);
    lemma_split_len(span_id);
    assert(trace_header(trace_id, span_id) =~= s2 + dash + flags);
    let fields = split_on(s2 + dash + flags, '-');
    assert(fields.len() == 2 + split_on(trace_id, '-').len() + split_on(span_id, '-').len());
    if !trace_id.contains('-') && !span_id.contains('-') {
        lemma_split_one(trace_id);
        lemma_split_one(span_id);
        assert(fields[1] == trace_id);
        assert(fields[2] == span_id);
    }
}

proof fn lemma_split_len(s: Seq<char>)
    ensures
        split_on(s, '-').len() >= 1,
        s.contains('-') ==> split_on(s, '-').len() >= 2,
    decreases s.len(),
{
    if s.len() > 0 {
        lemma_split_len(s.drop_last());
        if s.contains('-') && s.last() != '-' {
            let i = choose|i: int| 0 <= i < s.len() && s[i] == '-';
            assert(s.drop_last()[i] == '-');
        }
    }
}

proof fn lemma_split_join(front: Seq<char>, last: Seq<char>)
    ensures
        split_on(front + seq!['-'] + last, '-') == split_on(front, '-') + split_on(last, '-'),
    decreases last.len(),
{
    let s = front + seq!['-'] + last;
    let a = split_on(front, '-');
    lemma_split_len(last);
    if last.len() == 0 {
        assert(s.drop_last() =~= front);
        assert(split_on(s, '-') =~= a + split_on(last, '-'));
    } else {
        lemma_split_join(front, last.drop_last());
        lemma_split_len(last.drop_last());
        assert(s.drop_last() =~= front + seq!['-'] + last.drop_last());
        let b = split_on(last.drop_last(), '-');
        assert((a + b).drop_last() =~= a + b.drop_last());
        assert((a + b).last() == b.last());
        assert(split_on(s, '-') =~= a + split_on(last, '-'));
    }
}

proof fn lemma_split_one(s: Seq<char>)
    requires
        !s.contains('-'),
    ensures
        split_on(s, '-') == seq![s],
    decreases s.len(),
{
    if s.len() == 0 {
        assert(s =~= Seq::<char>::empty());
    } else {
        assert forall|i: int| 0 <= i < s.drop_last().len() implies s.drop_last()[i] != '-' by {
            assert(s.contains(s[i]));
        }
        lemma_split_one(s.drop_last());
        assert(s.contains(s.last()));
        assert(split_on(s, '-') =~= seq![s.drop_last().push(s.last())]);
        assert(s.drop_last().push(s.last()) =~= s);
    }
}

proof fn lemma_split_add(front: Seq<char>, last: Seq<char>)
    requires
        !last.contains('-'),
    ensures
        split_on(front + seq!['-'] + last, '-') == split_on(front, '-').push(last),
    decreases last.len(),
{
    let s = front + seq!['-'] + last;
    if last.len() == 0 {
        assert(s.drop_last() =~= front);
        assert(last =~= Seq::<char>::empty());
    } else {
        assert forall|i: int| 0 <= i < last.drop_last().len() implies last.drop_last()[i] != '-' by {
            assert(last.contains(last[i]));
        }
        lemma_split_add(front, last.drop_last());
        assert(s.drop_last() =~= front + seq!['-'] + last.drop_last());
        assert(last.contains(last.last()));
        let parts = split_on(s.drop_last(), '-');
        assert(last.drop_last().push(last.last()) =~= last);
        assert(parts.drop_last() =~= split_on(front, '-'));
    }
}

/// Whether `payload_protocol` is reserved by the frame codec.
pub fn is_first_party_payload_protocol(payload_protocol: u32) -> (b: bool)
    ensures
        b == registry::first_party(payload_protocol),
{
    registry::is_first_party(payload_protocol)
}

/// Whether `payload_protocol` is in the registered-consumer range.
pub fn is_registered_payload_protocol(payload_protocol: u32) -> (b: bool)
    ensures
        b == registry::registered_consumer(payload_protocol),
{
    registry::is_registered_consumer_id(payload_protocol)
}

/// Whether `payload_protocol` is in the private-use range.
pub fn is_private_payload_protocol(payload_protocol: u32) -> (b: bool)
    ensures
        b == registry::private_use(payload_protocol),
{
    registry::is_private_use_id(payload_protocol)
}

/// The numbers from zero to three are a request, a response, an event and a
/// cancellation; of encodings they are none, Zstandard, Snappy and LZ4. Any other
/// number is kept.
pub proof fn law_numbers_are_classified(n: i32)
    ensures
        classified_kind(0) is Request,
        classified_kind(1) is Response,
        classified_kind(2) is Event,
        classified_kind(3) is Cancel,
        n < 0 || n > 3 ==> classified_kind(n) == DaemonFrameKind::Unknown(n),
        classified_encoding(0) is Unencoded,
        classified_encoding(1) is Zstd,
        classified_encoding(2) is Snappy,
        classified_encoding(3) is Lz4,
        n < 0 || n > 3 ==> classified_encoding(n) == DaemonPayloadEncoding::Unknown(n),
{
}

/// A frame is encoded exactly if its body has at most 16 MiB; a larger one is refused
/// with both numbers.
pub proof fn law_large_frames_are_refused(f: FrameModel)
    requires
        frame_body(f).len() <= usize::MAX,
    ensures
        frame_body(f).len() <= 16777216 ==> encode_result(f) is Ok && encode_result(f)->Ok_0.len()
            == frame_body(f).len() + 5 && encode_result(f)->Ok_0.skip(5) == frame_body(f)
            && encode_result(f)->Ok_0[0] == 1,
        frame_body(f).len() > 16777216 ==> (encode_result(f) matches Err(
            DaemonFrameError::FrameTooLarge { body_length, maximum },
        ) && body_length == frame_body(f).len() && maximum == 16777216),
{
    if frame_body(f).len() <= 16777216 {
        crate::frame_v1::law_frame_layout(frame_body(f));
    }
}

/// A frame of another version and a frame that is too large are reported with their
/// numbers; everything else is a malformed frame.
pub proof fn law_errors_keep_their_numbers(error: FramingErrorModel)
    ensures
        match error {
            FramingErrorModel::UnsupportedFramingVersion { got, expected } => daemon_error(error)
                matches DaemonFrameError::UnsupportedFrameVersion { received, expected: e }
                && received == got && e == expected,
            FramingErrorModel::FrameTooLarge { body_length, cap } => daemon_error(error)
                matches DaemonFrameError::FrameTooLarge { body_length: n, maximum } && n
                == body_length && maximum == cap,
            FramingErrorModel::Decode(_) => daemon_error(error) is MalformedFrame,
            FramingErrorModel::UnexpectedEof { .. } => daemon_error(error) is MalformedFrame,
            FramingErrorModel::Io(..) => daemon_error(error) is MalformedFrame,
        },
{
}

/// A trace header is of version 00 and sampled, with the trace before the span.
pub proof fn law_trace_header_layout(trace_id: Seq<char>, span_id: Seq<char>)
    ensures
        trace_header(trace_id, span_id) == "00-"@ + (trace_id + ("-"@ + (span_id + "-01"@))),
{
    assert(trace_header(trace_id, span_id) =~= "00-"@ + (trace_id + ("-"@ + (span_id + "-01"@))));
}

/// A result is an encoding exactly if it succeeds where encoding does, with the same
/// bytes, and fails where encoding does, with the same error.
pub proof fn law_encodings_are_what_encoding_gives(
    r: Result<Vec<u8>, DaemonFrameError>,
    expected: Result<Seq<u8>, DaemonFrameError>,
)
    requires
        is_encoding(r, expected),
    ensures
        r is Ok <==> expected is Ok,
        r is Ok ==> r->Ok_0@ == expected->Ok_0,
        r is Err ==> r->Err_0 == expected->Err_0,
{
}

} // verus!

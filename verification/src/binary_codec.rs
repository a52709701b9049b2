//! The wire codec: an incremental decoder from a byte stream to typed
//! requests, and an encoder from typed responses to bytes.
//!
//! Decoding is a two-state parser. While awaiting a header it consumes
//! nothing until 24 bytes are buffered, then consumes exactly the header.
//! While awaiting a body it consumes nothing until `body_length` bytes are
//! buffered (the header's body length already counts extras, key and value),
//! then consumes exactly the body and produces at most one request. A
//! malformed frame — an unknown opcode, a wrong magic byte, or length fields
//! that contradict the opcode's layout — is consumed whole and reported,
//! leaving the parser in sync for the next frame. Frames of known opcodes
//! that carry no payload contract yet are consumed and skipped silently.
//!
//! The whole behaviour of `decode` is pinned by the pure function
//! [`spec_decode`], which is what the streaming law
//! [`lemma_decode_streaming`] is stated over.

use vstd::prelude::*;
use crate::binary::{
    AddRequest, AddResponse, Command, GetKeyQuietRequest, GetKeyQuietlyResponse, GetKeyRequest,
    GetKeyResponse, GetQuietRequest, GetQuietlyResponse, GetRequest, GetResponse, ReplaceRequest,
    ReplaceResponse, RequestHeader, ResponseHeader, SetRequest, SetResponse, REQUEST_MAGIC,
    command_from_u8, spec_command_of, spec_is_get_family, spec_is_set_family,
};
use crate::wire::{
    drain_front, push_bytes, push_u16_be, push_u32_be, push_u64_be, read_u16_be, read_u32_be,
    read_u64_be, spec_be16, spec_be32, spec_be64, spec_u16_bytes, spec_u32_bytes, spec_u64_bytes,
    vec_slice,
};

verus! {

/// Number of bytes in a request header.
pub const HEADER_LEN: usize = 24;

/// Number of bytes in a response header.
pub const RESPONSE_HEADER_LEN: usize = 24;

/// A per-frame decoding fault. The frame is consumed, so later frames on the
/// same connection still parse.
#[derive(Clone, Copy, Debug, PartialEq, Eq, Structural)]
pub enum CodecError {
    /// The opcode byte selects no command.
    UnknownOpcode,
    /// The magic byte or the length fields contradict the frame layout.
    MalformedFrame,
}

/// A client request.
#[derive(Clone, Debug)]
pub enum BinaryRequest {
    Get(GetRequest),
    GetQuietly(GetQuietRequest),
    GetKey(GetKeyRequest),
    GetKeyQuietly(GetKeyQuietRequest),
    SetOp(SetRequest),
    Add(AddRequest),
    Replace(ReplaceRequest),
}

/// A server response.
#[derive(Clone, Debug)]
pub enum BinaryResponse {
    Get(GetResponse),
    GetQuietly(GetQuietlyResponse),
    GetKey(GetKeyResponse),
    GetKeyQuietly(GetKeyQuietlyResponse),
    SetOp(SetResponse),
    Add(AddResponse),
    Replace(ReplaceResponse),
}

/// The mathematical shape of a request, with byte vectors as sequences.
pub ghost enum RequestModel {
    Get { header: RequestHeader, key: Seq<u8> },
    GetQuietly { header: RequestHeader, key: Seq<u8> },
    GetKey { header: RequestHeader, key: Seq<u8> },
    GetKeyQuietly { header: RequestHeader, key: Seq<u8> },
    SetOp { header: RequestHeader, flags: u32, expiration: u32, key: Seq<u8>, value: Seq<u8> },
    Add { header: RequestHeader, flags: u32, expiration: u32, key: Seq<u8>, value: Seq<u8> },
    Replace { header: RequestHeader, flags: u32, expiration: u32, key: Seq<u8>, value: Seq<u8> },
}

/// The mathematical shape of a response.
pub ghost enum ResponseModel {
    Get { header: ResponseHeader, flags: u32, key: Seq<u8>, value: Seq<u8> },
    GetQuietly { header: ResponseHeader, flags: u32, key: Seq<u8>, value: Seq<u8> },
    GetKey { header: ResponseHeader, flags: u32, key: Seq<u8> },
    GetKeyQuietly { header: ResponseHeader, flags: u32, key: Seq<u8> },
    SetOp { header: ResponseHeader },
    Add { header: ResponseHeader },
    Replace { header: ResponseHeader },
}

impl View for BinaryRequest {
    type V = RequestModel;

    open spec fn view(&self) -> RequestModel {
        match self {
            BinaryRequest::Get(r) => RequestModel::Get { header: r.header, key: r.key@ },
            BinaryRequest::GetQuietly(r) => RequestModel::GetQuietly {
                header: r.header,
                key: r.key@,
            },
            BinaryRequest::GetKey(r) => RequestModel::GetKey { header: r.header, key: r.key@ },
            BinaryRequest::GetKeyQuietly(r) => RequestModel::GetKeyQuietly {
                header: r.header,
                key: r.key@,
            },
            BinaryRequest::SetOp(r) => RequestModel::SetOp {
                header: r.header,
                flags: r.flags,
                expiration: r.expiration,
                key: r.key@,
                value: r.value@,
            },
            BinaryRequest::Add(r) => RequestModel::Add {
                header: r.header,
                flags: r.flags,
                expiration: r.expiration,
                key: r.key@,
                value: r.value@,
            },
            BinaryRequest::Replace(r) => RequestModel::Replace {
                header: r.header,
                flags: r.flags,
                expiration: r.expiration,
                key: r.key@,
                value: r.value@,
            },
        }
    }
}

impl View for BinaryResponse {
    type V = ResponseModel;

    open spec fn view(&self) -> ResponseModel {
        match self {
            BinaryResponse::Get(r) => ResponseModel::Get {
                header: r.header,
                flags: r.flags,
                key: r.key@,
                value: r.value@,
            },
            BinaryResponse::GetQuietly(r) => ResponseModel::GetQuietly {
                header: r.header,
                flags: r.flags,
                key: r.key@,
                value: r.value@,
            },
            BinaryResponse::GetKey(r) => ResponseModel::GetKey {
                header: r.header,
                flags: r.flags,
                key: r.key@,
            },
            BinaryResponse::GetKeyQuietly(r) => ResponseModel::GetKeyQuietly {
                header: r.header,
                flags: r.flags,
                key: r.key@,
            },
            BinaryResponse::SetOp(r) => ResponseModel::SetOp { header: r.header },
            BinaryResponse::Add(r) => ResponseModel::Add { header: r.header },
            BinaryResponse::Replace(r) => ResponseModel::Replace { header: r.header },
        }
    }
}

/// The request header a request carries.
pub open spec fn spec_req_header(m: RequestModel) -> RequestHeader {
    match m {
        RequestModel::Get { header, .. } => header,
        RequestModel::GetQuietly { header, .. } => header,
        RequestModel::GetKey { header, .. } => header,
        RequestModel::GetKeyQuietly { header, .. } => header,
        RequestModel::SetOp { header, .. } => header,
        RequestModel::Add { header, .. } => header,
        RequestModel::Replace { header, .. } => header,
    }
}

/// The response header a response carries.
pub open spec fn spec_rsp_header(m: ResponseModel) -> ResponseHeader {
    match m {
        ResponseModel::Get { header, .. } => header,
        ResponseModel::GetQuietly { header, .. } => header,
        ResponseModel::GetKey { header, .. } => header,
        ResponseModel::GetKeyQuietly { header, .. } => header,
        ResponseModel::SetOp { header } => header,
        ResponseModel::Add { header } => header,
        ResponseModel::Replace { header } => header,
    }
}

impl BinaryRequest {
    /// The header of the request, whichever command it carries.
    pub fn get_header(&self) -> (h: &RequestHeader)
        ensures
            *h == spec_req_header(self@),
    {
        match self {
            BinaryRequest::Get(r) => &r.header,
            BinaryRequest::GetQuietly(r) => &r.header,
            BinaryRequest::GetKey(r) => &r.header,
            BinaryRequest::GetKeyQuietly(r) => &r.header,
            BinaryRequest::SetOp(r) => &r.header,
            BinaryRequest::Add(r) => &r.header,
            BinaryRequest::Replace(r) => &r.header,
        }
    }
}

impl BinaryResponse {
    /// The header of the response, whichever command it answers.
    pub fn get_header(&self) -> (h: &ResponseHeader)
        ensures
            *h == spec_rsp_header(self@),
    {
        match self {
            BinaryResponse::Get(r) => &r.header,
            BinaryResponse::GetQuietly(r) => &r.header,
            BinaryResponse::GetKey(r) => &r.header,
            BinaryResponse::GetKeyQuietly(r) => &r.header,
            BinaryResponse::SetOp(r) => &r.header,
            BinaryResponse::Add(r) => &r.header,
            BinaryResponse::Replace(r) => &r.header,
        }
    }
}

/// The decoder's phase: waiting for a full header, or for the body the
/// parsed header announced.
#[derive(Clone, Copy, Debug, PartialEq, Eq, Structural)]
pub enum RequestParserState {
    AwaitingHeader,
    AwaitingBody,
}

/// The per-connection parser: the current phase and, in the body phase, the
/// header of the frame being read.
#[derive(Clone, Copy, Debug, PartialEq, Eq, Structural)]
pub struct MemcachedBinaryCodec {
    pub header: RequestHeader,
    pub state: RequestParserState,
}

/// The header read from the first 24 bytes.
pub open spec fn spec_parse_header(s: Seq<u8>) -> RequestHeader
    recommends
        s.len() == 24,
{
    RequestHeader {
        magic: s[0],
        opcode: s[1],
        key_length: spec_be16(s.subrange(2, 4)),
        extras_length: s[4],
        data_type: s[5],
        reserved: spec_be16(s.subrange(6, 8)),
        body_length: spec_be32(s.subrange(8, 12)),
        opaque: spec_be32(s.subrange(12, 16)),
        cas: spec_be64(s.subrange(16, 24)),
    }
}

/// What becomes of one complete frame: a request, a reported fault, or a
/// silent skip.
pub ghost enum FrameOutcome {
    Request(RequestModel),
    Error(CodecError),
    Skip,
}

/// The request read from a body of the get family: the body is the key.
pub open spec fn spec_get_request(c: Command, h: RequestHeader, body: Seq<u8>) -> RequestModel {
    if c == Command::GetQuiet {
        RequestModel::GetQuietly { header: h, key: body }
    } else if c == Command::GetKey {
        RequestModel::GetKey { header: h, key: body }
    } else if c == Command::GetKeyQuiet {
        RequestModel::GetKeyQuietly { header: h, key: body }
    } else {
        RequestModel::Get { header: h, key: body }
    }
}

/// The request read from a body of the set family: four flag bytes and four
/// expiration bytes, then the key, then the value.
pub open spec fn spec_set_request(c: Command, h: RequestHeader, body: Seq<u8>) -> RequestModel {
    let flags = spec_be32(body.subrange(0, 4));
    let expiration = spec_be32(body.subrange(4, 8));
    let key = body.subrange(8, 8 + h.key_length as int);
    let value = body.subrange(8 + h.key_length as int, body.len() as int);
    if c == Command::Add {
        RequestModel::Add { header: h, flags, expiration, key, value }
    } else if c == Command::Replace {
        RequestModel::Replace { header: h, flags, expiration, key, value }
    } else {
        RequestModel::SetOp { header: h, flags, expiration, key, value }
    }
}

/// What one complete frame with header `h` and body `body` decodes to.
pub open spec fn spec_frame_outcome(h: RequestHeader, body: Seq<u8>) -> FrameOutcome
    recommends
        body.len() == h.body_length,
{
    match spec_command_of(h.opcode) {
        None => FrameOutcome::Error(CodecError::UnknownOpcode),
        Some(c) => if h.magic != REQUEST_MAGIC {
            FrameOutcome::Error(CodecError::MalformedFrame)
        } else if spec_is_get_family(c) {
            if h.extras_length == 0 && h.key_length == h.body_length {
                FrameOutcome::Request(spec_get_request(c, h, body))
            } else {
                FrameOutcome::Error(CodecError::MalformedFrame)
            }
        } else if spec_is_set_family(c) {
            if h.extras_length == 8 && h.key_length != 0 && h.body_length >= h.key_length + 8 {
                FrameOutcome::Request(spec_set_request(c, h, body))
            } else {
                FrameOutcome::Error(CodecError::MalformedFrame)
            }
        } else {
            FrameOutcome::Skip
        },
    }
}

/// The outcome of a frame, as `decode` reports it.
pub open spec fn spec_outcome_result(o: FrameOutcome) -> Result<Option<RequestModel>, CodecError> {
    match o {
        FrameOutcome::Request(m) => Ok(Some(m)),
        FrameOutcome::Skip => Ok(None),
        FrameOutcome::Error(e) => Err(e),
    }
}

/// An exec decode result, abstracted to models.
pub open spec fn spec_result_view(r: Result<Option<BinaryRequest>, CodecError>) -> Result<
    Option<RequestModel>,
    CodecError,
> {
    match r {
        Ok(Some(q)) => Ok(Some(q@)),
        Ok(None) => Ok(None),
        Err(e) => Err(e),
    }
}

/// Ordering of the phases used by the termination measure of [`spec_decode`]:
/// consuming a body returns to the header phase without necessarily consuming
/// bytes, so the body phase ranks above the header phase.
pub open spec fn spec_state_rank(s: RequestParserState) -> int {
    match s {
        RequestParserState::AwaitingHeader => 0,
        RequestParserState::AwaitingBody => 1,
    }
}

/// The decoder as a pure function: from a parser state and buffered input to
/// the state, the unconsumed input and the report that one `decode` call
/// produces. `Ok(None)` means the input ran out before a frame was complete.
pub open spec fn spec_decode(c: MemcachedBinaryCodec, input: Seq<u8>) -> (
    MemcachedBinaryCodec,
    Seq<u8>,
    Result<Option<RequestModel>, CodecError>,
)
    decreases input.len(), spec_state_rank(c.state),
{
    match c.state {
        RequestParserState::AwaitingHeader => {
            if input.len() < 24 {
                (c, input, Ok(None))
            } else {
                let h = spec_parse_header(input.take(24));
                spec_decode(
                    MemcachedBinaryCodec { header: h, state: RequestParserState::AwaitingBody },
                    input.skip(24),
                )
            }
        },
        RequestParserState::AwaitingBody => {
            if input.len() < c.header.body_length {
                (c, input, Ok(None))
            } else {
                let body = input.take(c.header.body_length as int);
                let rest = input.skip(c.header.body_length as int);
                let c2 = MemcachedBinaryCodec {
                    header: c.header,
                    state: RequestParserState::AwaitingHeader,
                };
                match spec_frame_outcome(c.header, body) {
                    FrameOutcome::Skip => spec_decode(c2, rest),
                    FrameOutcome::Request(m) => (c2, rest, Ok(Some(m))),
                    FrameOutcome::Error(e) => (c2, rest, Err(e)),
                }
            }
        },
    }
}

impl MemcachedBinaryCodec {
    /// A parser awaiting the first header.
    pub fn new() -> (c: MemcachedBinaryCodec)
        ensures
            c == spec_initial_codec(),
    {
        MemcachedBinaryCodec {
            header: RequestHeader {
                magic: 0,
                opcode: 0,
                key_length: 0,
                extras_length: 0,
                data_type: 0,
                reserved: 0,
                body_length: 0,
                opaque: 0,
                cas: 0,
            },
            state: RequestParserState::AwaitingHeader,
        }
    }

    /// Consumes exactly 24 buffered bytes into the frame header and moves to
    /// the body phase.
    pub fn parse_header(&mut self, src: &mut Vec<u8>)
        requires
            old(src)@.len() >= 24,
        ensures
            *final(self) == (MemcachedBinaryCodec {
                header: spec_parse_header(old(src)@.take(24)),
                state: RequestParserState::AwaitingBody,
            }),
            final(src)@ == old(src)@.skip(24),
    {
        proof {
            assert(src@.take(24).subrange(2, 4) =~= src@.subrange(2, 4));
            assert(src@.take(24).subrange(6, 8) =~= src@.subrange(6, 8));
            assert(src@.take(24).subrange(8, 12) =~= src@.subrange(8, 12));
            assert(src@.take(24).subrange(12, 16) =~= src@.subrange(12, 16));
            assert(src@.take(24).subrange(16, 24) =~= src@.subrange(16, 24));
        }
        self.header = RequestHeader {
            magic: src[0],
            opcode: src[1],
            key_length: read_u16_be(src, 2),
            extras_length: src[4],
            data_type: src[5],
            reserved: read_u16_be(src, 6),
            body_length: read_u32_be(src, 8),
            opaque: read_u32_be(src, 12),
            cas: read_u64_be(src, 16),
        };
        self.state = RequestParserState::AwaitingBody;
        drain_front(src, 24);
    }

    /// How many buffered bytes the current frame still needs past the
    /// header. The header's body length already counts extras, key and
    /// value, so it is exactly that value.
    pub fn get_req_length(&self) -> (r: usize)
        ensures
            r == self.header.body_length,
    {
        self.header.body_length as usize
    }

    /// Length of the value bytes of the store frame the current header
    /// announces: what remains of the body once extras and key are counted
    /// off.
    pub fn get_value_len(&self) -> (r: usize)
        requires
            self.header.body_length >= self.header.key_length + 8,
        ensures
            r == self.header.body_length - self.header.key_length - 8,
    {
        (self.header.body_length as usize) - (self.header.key_length as usize) - 8
    }

    /// Consumes exactly the current frame's body and produces its outcome:
    /// a request, a reported per-frame fault, or nothing for a frame that is
    /// only skipped. Either way the parser returns to the header phase.
    pub fn parse(&mut self, src: &mut Vec<u8>) -> (r: Result<Option<BinaryRequest>, CodecError>)
        requires
            old(self).state == RequestParserState::AwaitingBody,
            old(src)@.len() >= old(self).header.body_length,
        ensures
            *final(self) == (MemcachedBinaryCodec {
                header: old(self).header,
                state: RequestParserState::AwaitingHeader,
            }),
            final(src)@ == old(src)@.skip(old(self).header.body_length as int),
            spec_result_view(r) == spec_outcome_result(
                spec_frame_outcome(
                    old(self).header,
                    old(src)@.take(old(self).header.body_length as int),
                ),
            ),
    {
        let h = self.header;
        let need = h.body_length as usize;
        let ghost body = src@.take(need as int);
        self.state = RequestParserState::AwaitingHeader;
        match command_from_u8(h.opcode) {
            None => {
                drain_front(src, need);
                Err(CodecError::UnknownOpcode)
            },
            Some(c) => {
                if h.magic != REQUEST_MAGIC {
                    drain_front(src, need);
                    return Err(CodecError::MalformedFrame);
                }
                let get_like = matches!(c, Command::Get | Command::GetQuiet | Command::GetKey
                    | Command::GetKeyQuiet);
                let set_like = matches!(c, Command::SetOp | Command::Add | Command::Replace);
                if get_like {
                    if h.extras_length == 0 && (h.key_length as u32) == h.body_length {
                        let key = vec_slice(src, 0, need);
                        drain_front(src, need);
                        proof {
                            assert(key@ =~= body);
                        }
                        let req = GetRequest { header: h, key };
                        if matches!(c, Command::GetQuiet) {
                            Ok(Some(BinaryRequest::GetQuietly(req)))
                        } else if matches!(c, Command::GetKey) {
                            Ok(Some(BinaryRequest::GetKey(req)))
                        } else if matches!(c, Command::GetKeyQuiet) {
                            Ok(Some(BinaryRequest::GetKeyQuietly(req)))
                        } else {
                            Ok(Some(BinaryRequest::Get(req)))
                        }
                    } else {
                        drain_front(src, need);
                        Err(CodecError::MalformedFrame)
                    }
                } else if set_like {
                    if h.extras_length == 8 && h.key_length != 0 && h.body_length >= (
                    h.key_length as u32) + 8 {
                        let key_len = h.key_length as usize;
                        let value_len = self.get_value_len();
                        let flags = read_u32_be(src, 0);
                        let expiration = read_u32_be(src, 4);
                        let key = vec_slice(src, 8, 8 + key_len);
                        let value = vec_slice(src, 8 + key_len, 8 + key_len + value_len);
                        drain_front(src, need);
                        proof {
                            assert(body.subrange(0, 4) =~= old(src)@.subrange(0, 4));
                            assert(body.subrange(4, 8) =~= old(src)@.subrange(4, 8));
                            assert(body.subrange(8, 8 + h.key_length as int) =~= old(src)@.subrange(
                                8,
                                8 + h.key_length as int,
                            ));
                            assert(body.subrange(8 + h.key_length as int, body.len() as int) =~= old(
                                src,
                            )@.subrange(8 + h.key_length as int, need as int));
                        }
                        let req = SetRequest { header: h, flags, expiration, key, value };
                        if matches!(c, Command::Add) {
                            Ok(Some(BinaryRequest::Add(req)))
                        } else if matches!(c, Command::Replace) {
                            Ok(Some(BinaryRequest::Replace(req)))
                        } else {
                            Ok(Some(BinaryRequest::SetOp(req)))
                        }
                    } else {
                        drain_front(src, need);
                        Err(CodecError::MalformedFrame)
                    }
                } else {
                    drain_front(src, need);
                    Ok(None)
                }
            },
        }
    }

    /// Drives the parser over the buffered bytes: consumes as much input as
    /// one report allows and returns a parsed request, a per-frame fault, or
    /// `Ok(None)` when the buffer ran out before a frame was complete.
    /// Exactly [`spec_decode`] on the parser state and the buffer.
    #[verifier::loop_isolation(false)]
    pub fn decode(&mut self, src: &mut Vec<u8>) -> (r: Result<Option<BinaryRequest>, CodecError>)
        ensures
            ({
                let (c2, rest, res) = spec_decode(*old(self), old(src)@);
                *final(self) == c2 && final(src)@ == rest && spec_result_view(r) == res
            }),
    {
        let ghost goal = spec_decode(*self, src@);
        loop
            invariant
                spec_decode(*self, src@) == goal,
            decreases src@.len(), spec_state_rank(self.state),
        {
            match self.state {
                RequestParserState::AwaitingHeader => {
                    if src.len() < HEADER_LEN {
                        return Ok(None);
                    }
                    self.parse_header(src);
                },
                RequestParserState::AwaitingBody => {
                    let need = self.get_req_length();
                    if src.len() < need {
                        return Ok(None);
                    }
                    let r = self.parse(src);
                    match r {
                        Ok(None) => (),
                        Ok(Some(q)) => {
                            return Ok(Some(q));
                        },
                        Err(e) => {
                            return Err(e);
                        },
                    }
                },
            }
        }
    }
}

/// The parser state a fresh connection starts in.
pub open spec fn spec_initial_codec() -> MemcachedBinaryCodec {
    MemcachedBinaryCodec {
        header: RequestHeader {
            magic: 0,
            opcode: 0,
            key_length: 0,
            extras_length: 0,
            data_type: 0,
            reserved: 0,
            body_length: 0,
            opaque: 0,
            cas: 0,
        },
        state: RequestParserState::AwaitingHeader,
    }
}

/// The 24 bytes of a response header, in wire order.
pub open spec fn spec_response_header_bytes(h: ResponseHeader) -> Seq<u8> {
    seq![h.magic, h.opcode] + spec_u16_bytes(h.key_length) + seq![h.extras_length, h.data_type]
        + spec_u16_bytes(h.status) + spec_u32_bytes(h.body_length) + spec_u32_bytes(h.opaque)
        + spec_u64_bytes(h.cas)
}

/// The payload bytes a response carries after its header.
pub open spec fn spec_payload(m: ResponseModel) -> Seq<u8> {
    match m {
        ResponseModel::Get { flags, key, value, .. } => spec_u32_bytes(flags) + key + value,
        ResponseModel::GetQuietly { flags, key, value, .. } => spec_u32_bytes(flags) + key + value,
        ResponseModel::GetKey { flags, key, .. } => spec_u32_bytes(flags) + key,
        ResponseModel::GetKeyQuietly { flags, key, .. } => spec_u32_bytes(flags) + key,
        ResponseModel::SetOp { .. } => Seq::<u8>::empty(),
        ResponseModel::Add { .. } => Seq::<u8>::empty(),
        ResponseModel::Replace { .. } => Seq::<u8>::empty(),
    }
}

/// The full encoding of a response: header bytes, then payload bytes.
pub open spec fn spec_encode(m: ResponseModel) -> Seq<u8> {
    spec_response_header_bytes(spec_rsp_header(m)) + spec_payload(m)
}

/// A response whose header fields agree with its payload: the declared body
/// length counts the payload bytes exactly.
pub open spec fn spec_response_wf(m: ResponseModel) -> bool {
    spec_rsp_header(m).body_length == spec_payload(m).len()
}

impl MemcachedBinaryCodec {
    /// Total frame length a response will occupy on the wire.
    pub fn get_length(&self, msg: &BinaryResponse) -> (r: usize)
        requires
            spec_rsp_header(msg@).body_length + RESPONSE_HEADER_LEN <= usize::MAX,
        ensures
            r == RESPONSE_HEADER_LEN + spec_rsp_header(msg@).body_length,
    {
        self.get_len_from_header(self.get_header(msg))
    }

    /// The header of a response, as the encoder reads it.
    pub fn get_header<'a>(&self, msg: &'a BinaryResponse) -> (h: &'a ResponseHeader)
        ensures
            *h == spec_rsp_header(msg@),
    {
        msg.get_header()
    }

    /// Frame length that a header announces.
    pub fn get_len_from_header(&self, header: &ResponseHeader) -> (r: usize)
        requires
            header.body_length + RESPONSE_HEADER_LEN <= usize::MAX,
        ensures
            r == RESPONSE_HEADER_LEN + header.body_length,
    {
        RESPONSE_HEADER_LEN + (header.body_length as usize)
    }

    /// Writes the 24 header bytes.
    fn write_header(&self, header: &ResponseHeader, dst: &mut Vec<u8>)
        ensures
            final(dst)@ == old(dst)@ + spec_response_header_bytes(*header),
    {
        dst.push(header.magic);
        dst.push(header.opcode);
        push_u16_be(dst, header.key_length);
        dst.push(header.extras_length);
        dst.push(header.data_type);
        push_u16_be(dst, header.status);
        push_u32_be(dst, header.body_length);
        push_u32_be(dst, header.opaque);
        push_u64_be(dst, header.cas);
        proof {
            assert(dst@ =~= old(dst)@ + spec_response_header_bytes(*header));
        }
    }

    /// Writes the payload bytes that follow the header.
    fn write_data(&self, msg: &BinaryResponse, dst: &mut Vec<u8>)
        ensures
            final(dst)@ == old(dst)@ + spec_payload(msg@),
    {
        match msg {
            BinaryResponse::Get(response) => {
                push_u32_be(dst, response.flags);
                push_bytes(dst, &response.key);
                push_bytes(dst, &response.value);
            },
            BinaryResponse::GetQuietly(response) => {
                push_u32_be(dst, response.flags);
                push_bytes(dst, &response.key);
                push_bytes(dst, &response.value);
            },
            BinaryResponse::GetKey(response) => {
                push_u32_be(dst, response.flags);
                push_bytes(dst, &response.key);
            },
            BinaryResponse::GetKeyQuietly(response) => {
                push_u32_be(dst, response.flags);
                push_bytes(dst, &response.key);
            },
            BinaryResponse::SetOp(_) => (),
            BinaryResponse::Add(_) => (),
            BinaryResponse::Replace(_) => (),
        }
        proof {
            assert(dst@ =~= old(dst)@ + spec_payload(msg@));
        }
    }

    /// Writes one whole response frame.
    fn write_msg(&self, msg: &BinaryResponse, dst: &mut Vec<u8>)
        ensures
            final(dst)@ == old(dst)@ + spec_encode(msg@),
    {
        self.write_header(msg.get_header(), dst);
        self.write_data(msg, dst);
        proof {
            assert(dst@ =~= old(dst)@ + spec_encode(msg@));
        }
    }

    /// Appends the full wire encoding of a response to the outgoing buffer:
    /// the 24-byte header, then the payload the response variant carries.
    pub fn encode(&self, msg: BinaryResponse, dst: &mut Vec<u8>)
        ensures
            final(dst)@ == old(dst)@ + spec_encode(msg@),
    {
        self.write_msg(&msg, dst);
    }
}

/// Encoding a well-formed response occupies exactly the announced frame
/// length: 24 header bytes plus the declared body length. This is the
/// encoder's framing invariant.
pub proof fn lemma_encode_length(m: ResponseModel)
    requires
        spec_response_wf(m),
    ensures
        spec_encode(m).len() == RESPONSE_HEADER_LEN + spec_rsp_header(m).body_length,
{
}


/// Requests the decoder can produce announce bounded payloads: a store
/// request's value fits the 32-bit body length with its extras and key.
pub open spec fn spec_req_value_ok(m: RequestModel) -> bool {
    match m {
        RequestModel::SetOp { value, .. } => value.len() + 9 <= 0x1_0000_0000,
        RequestModel::Add { value, .. } => value.len() + 9 <= 0x1_0000_0000,
        RequestModel::Replace { value, .. } => value.len() + 9 <= 0x1_0000_0000,
        _ => true,
    }
}

/// Every request the decoder produces satisfies [`spec_req_value_ok`]: the
/// value bytes come out of a body whose 32-bit declared length also covers
/// eight extras bytes and at least one key byte.
pub proof fn lemma_decode_value_bounded(c: MemcachedBinaryCodec, input: Seq<u8>)
    ensures
        spec_decode(c, input).2 matches Ok(Some(m)) ==> spec_req_value_ok(m),
    decreases input.len(), spec_state_rank(c.state),
{
    match c.state {
        RequestParserState::AwaitingHeader => {
            if input.len() >= 24 {
                let h = spec_parse_header(input.take(24));
                lemma_decode_value_bounded(
                    MemcachedBinaryCodec { header: h, state: RequestParserState::AwaitingBody },
                    input.skip(24),
                );
            }
        },
        RequestParserState::AwaitingBody => {
            if input.len() >= c.header.body_length {
                let body = input.take(c.header.body_length as int);
                let rest = input.skip(c.header.body_length as int);
                let c2 = MemcachedBinaryCodec {
                    header: c.header,
                    state: RequestParserState::AwaitingHeader,
                };
                match spec_frame_outcome(c.header, body) {
                    FrameOutcome::Skip => {
                        lemma_decode_value_bounded(c2, rest);
                    },
                    FrameOutcome::Request(m) => {
                        assert(body.len() == c.header.body_length);
                    },
                    FrameOutcome::Error(_) => {},
                }
            }
        },
    }
}

/// Framing under fragmentation: when a decode call over buffered input `a`
/// ran out before a frame was complete, appending further input `b` and
/// decoding from the state and leftover it returned reports exactly what one
/// decode over the whole input `a + b` would. Repeated, this makes any split
/// of a frame's bytes across reads equivalent to delivering it whole.
pub proof fn lemma_decode_streaming(c: MemcachedBinaryCodec, a: Seq<u8>, b: Seq<u8>)
    requires
        spec_decode(c, a).2 == Ok::<Option<RequestModel>, CodecError>(None),
    ensures
        spec_decode(c, a + b) == spec_decode(spec_decode(c, a).0, spec_decode(c, a).1 + b),
    decreases a.len(), spec_state_rank(c.state),
{
    match c.state {
        RequestParserState::AwaitingHeader => {
            if a.len() < 24 {
                assert(spec_decode(c, a).1 + b =~= a + b);
            } else {
                assert((a + b).take(24) =~= a.take(24));
                assert((a + b).skip(24) =~= a.skip(24) + b);
                let h = spec_parse_header(a.take(24));
                let c1 = MemcachedBinaryCodec {
                    header: h,
                    state: RequestParserState::AwaitingBody,
                };
                lemma_decode_streaming(c1, a.skip(24), b);
            }
        },
        RequestParserState::AwaitingBody => {
            let need = c.header.body_length as int;
            if a.len() < need {
                assert(spec_decode(c, a).1 + b =~= a + b);
            } else {
                assert((a + b).take(need) =~= a.take(need));
                assert((a + b).skip(need) =~= a.skip(need) + b);
                let c2 = MemcachedBinaryCodec {
                    header: c.header,
                    state: RequestParserState::AwaitingHeader,
                };
                match spec_frame_outcome(c.header, a.take(need)) {
                    FrameOutcome::Skip => {
                        lemma_decode_streaming(c2, a.skip(need), b);
                    },
                    FrameOutcome::Request(_) => {
                        assert(false);
                    },
                    FrameOutcome::Error(_) => {
                        assert(false);
                    },
                }
            }
        },
    }
}


/// One decode call never grows the buffer, and whenever it produces a
/// request or reports a fault it has consumed the frame and stands back in
/// the header phase — from the header phase, it consumed at least the
/// header.
pub proof fn lemma_decode_consumes(c: MemcachedBinaryCodec, input: Seq<u8>)
    ensures
        spec_decode(c, input).1.len() <= input.len(),
        spec_decode(c, input).2 != Ok::<Option<RequestModel>, CodecError>(None) ==> spec_decode(
            c,
            input,
        ).0.state == RequestParserState::AwaitingHeader,
        (spec_decode(c, input).2 != Ok::<Option<RequestModel>, CodecError>(None) && c.state
            == RequestParserState::AwaitingHeader) ==> spec_decode(c, input).1.len() < input.len(),
    decreases input.len(), spec_state_rank(c.state),
{
    match c.state {
        RequestParserState::AwaitingHeader => {
            if input.len() >= 24 {
                let h = spec_parse_header(input.take(24));
                lemma_decode_consumes(
                    MemcachedBinaryCodec { header: h, state: RequestParserState::AwaitingBody },
                    input.skip(24),
                );
            }
        },
        RequestParserState::AwaitingBody => {
            if input.len() >= c.header.body_length {
                let rest = input.skip(c.header.body_length as int);
                let c2 = MemcachedBinaryCodec {
                    header: c.header,
                    state: RequestParserState::AwaitingHeader,
                };
                match spec_frame_outcome(c.header, input.take(c.header.body_length as int)) {
                    FrameOutcome::Skip => {
                        lemma_decode_consumes(c2, rest);
                    },
                    FrameOutcome::Request(_) => {},
                    FrameOutcome::Error(_) => {},
                }
            }
        },
    }
}

} // verus!

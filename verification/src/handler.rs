//! The request handler: maps one decoded request to at most one storage call
//! and at most one response, and fills in the response header.
//!
//! The get family answers a hit with flags, token and payload; a miss is
//! deliberately silent — no response frame is emitted for it, and the
//! connection stays ready for the next frame. The set family always answers,
//! carrying a success status and the freshly issued compare-and-swap token,
//! or the wire status its storage error maps to.

use vstd::prelude::*;
use crate::binary::{
    ResponseHeader, GetResponse, GetKeyResponse, SetResponse, RESPONSE_MAGIC, STATUS_SUCCESS,
    STATUS_KEY_NOT_FOUND, STATUS_KEY_EXISTS, STATUS_INVALID_ARGUMENTS, STATUS_NON_NUMERIC_VALUE,
};
use crate::binary_codec::{BinaryRequest, BinaryResponse, RequestModel, ResponseModel};
use crate::error::StorageError;
use crate::storage::{
    Header, Record, RecordModel, Storage, StorageModel, spec_add, spec_lookup, spec_replace,
    spec_set, spec_wf, ValueData,
};

verus! {

/// Longest value payload a get response can announce in its 32-bit body
/// length, next to the four flag bytes.
pub const MAX_GET_VALUE_LEN: usize = 0xFFFF_FFFB;

/// Longest key a get-key response can echo in its 16-bit key length field.
pub const MAX_ECHO_KEY_LEN: usize = 0xFFFF;

/// The wire status a storage error maps to.
pub open spec fn spec_status_of(e: StorageError) -> u16 {
    match e {
        StorageError::NotFound => STATUS_KEY_NOT_FOUND,
        StorageError::KeyExists => STATUS_KEY_EXISTS,
        StorageError::CasMismatch => STATUS_KEY_EXISTS,
        StorageError::ItemExpired => STATUS_KEY_NOT_FOUND,
        StorageError::TypeMismatch => STATUS_NON_NUMERIC_VALUE,
        StorageError::KeyTooLarge => STATUS_INVALID_ARGUMENTS,
    }
}

/// Maps a storage error to its wire status.
pub fn status_of(e: StorageError) -> (r: u16)
    ensures
        r == spec_status_of(e),
{
    match e {
        StorageError::NotFound => STATUS_KEY_NOT_FOUND,
        StorageError::KeyExists => STATUS_KEY_EXISTS,
        StorageError::CasMismatch => STATUS_KEY_EXISTS,
        StorageError::ItemExpired => STATUS_KEY_NOT_FOUND,
        StorageError::TypeMismatch => STATUS_NON_NUMERIC_VALUE,
        StorageError::KeyTooLarge => STATUS_INVALID_ARGUMENTS,
    }
}

/// A response header answering opcode `cmd`, before the handler fills in the
/// fields the outcome decides.
pub open spec fn spec_base_header(cmd: u8, opaque: u32) -> ResponseHeader {
    ResponseHeader {
        magic: RESPONSE_MAGIC,
        opcode: cmd,
        key_length: 0,
        extras_length: 0,
        data_type: 0,
        status: STATUS_SUCCESS,
        body_length: 0,
        opaque,
        cas: 0,
    }
}

/// What a hit of the plain get family answers: flags as four extras bytes,
/// no key echo, then the payload. A value too long for the 32-bit body
/// length yields no response.
pub open spec fn spec_get_response(
    cmd: u8,
    opaque: u32,
    quiet: bool,
    rh: Header,
    value: Seq<u8>,
) -> Option<ResponseModel> {
    if value.len() > MAX_GET_VALUE_LEN {
        None
    } else {
        let header = ResponseHeader {
            extras_length: 4,
            body_length: (4 + value.len()) as u32,
            cas: rh.cas,
            ..spec_base_header(cmd, opaque)
        };
        if quiet {
            Some(ResponseModel::GetQuietly { header, flags: rh.flags, key: Seq::empty(), value })
        } else {
            Some(ResponseModel::Get { header, flags: rh.flags, key: Seq::empty(), value })
        }
    }
}

/// What a hit of the key-echoing get family answers: flags, then the key.
pub open spec fn spec_get_key_response(
    cmd: u8,
    opaque: u32,
    quiet: bool,
    rh: Header,
    key: Seq<u8>,
) -> Option<ResponseModel> {
    if key.len() > MAX_ECHO_KEY_LEN {
        None
    } else {
        let header = ResponseHeader {
            extras_length: 4,
            key_length: key.len() as u16,
            body_length: (4 + key.len()) as u32,
            cas: rh.cas,
            ..spec_base_header(cmd, opaque)
        };
        if quiet {
            Some(ResponseModel::GetKeyQuietly { header, flags: rh.flags, key })
        } else {
            Some(ResponseModel::GetKey { header, flags: rh.flags, key })
        }
    }
}

/// The header answering a store command: success with the fresh token, or
/// the mapped error status with no token.
pub open spec fn spec_store_header(cmd: u8, opaque: u32, res: Result<u64, StorageError>) -> ResponseHeader {
    match res {
        Ok(token) => ResponseHeader { cas: token, ..spec_base_header(cmd, opaque) },
        Err(e) => ResponseHeader { status: spec_status_of(e), ..spec_base_header(cmd, opaque) },
    }
}

/// The record a store request asks the engine to keep, before stamping.
pub open spec fn spec_request_record(cas: u64, flags: u32, expiration: u32, value: Seq<u8>) -> RecordModel {
    RecordModel::Value { header: Header { timestamp: 0, cas, flags, expiration }, value }
}

/// The handler as a pure function: from the storage state and one request to
/// the new storage state and the response, if one is owed.
pub open spec fn spec_handle(s: StorageModel, req: RequestModel, now: u64) -> (
    StorageModel,
    Option<ResponseModel>,
) {
    match req {
        RequestModel::Get { header, key } => {
            match spec_lookup(s, key, now) {
                Some(RecordModel::Value { header: rh, value }) => (
                    s,
                    spec_get_response(header.opcode, header.opaque, false, rh, value),
                ),
                _ => (s, None),
            }
        },
        RequestModel::GetQuietly { header, key } => {
            match spec_lookup(s, key, now) {
                Some(RecordModel::Value { header: rh, value }) => (
                    s,
                    spec_get_response(header.opcode, header.opaque, true, rh, value),
                ),
                _ => (s, None),
            }
        },
        RequestModel::GetKey { header, key } => {
            match spec_lookup(s, key, now) {
                Some(RecordModel::Value { header: rh, .. }) => (
                    s,
                    spec_get_key_response(header.opcode, header.opaque, false, rh, key),
                ),
                _ => (s, None),
            }
        },
        RequestModel::GetKeyQuietly { header, key } => {
            match spec_lookup(s, key, now) {
                Some(RecordModel::Value { header: rh, .. }) => (
                    s,
                    spec_get_key_response(header.opcode, header.opaque, true, rh, key),
                ),
                _ => (s, None),
            }
        },
        RequestModel::SetOp { header, flags, expiration, key, value } => {
            let rec = spec_request_record(header.cas, flags, expiration, value);
            let (s2, res) = spec_set(s, key, rec, now);
            (
                s2,
                Some(
                    ResponseModel::SetOp {
                        header: spec_store_header(header.opcode, header.opaque, res),
                    },
                ),
            )
        },
        RequestModel::Add { header, flags, expiration, key, value } => {
            let rec = spec_request_record(header.cas, flags, expiration, value);
            let (s2, res) = spec_add(s, key, rec, now);
            (
                s2,
                Some(
                    ResponseModel::Add {
                        header: spec_store_header(header.opcode, header.opaque, res),
                    },
                ),
            )
        },
        RequestModel::Replace { header, flags, expiration, key, value } => {
            let rec = spec_request_record(header.cas, flags, expiration, value);
            let (s2, res) = spec_replace(s, key, rec, now);
            (
                s2,
                Some(
                    ResponseModel::Replace {
                        header: spec_store_header(header.opcode, header.opaque, res),
                    },
                ),
            )
        },
    }
}

/// A handler's possible response, abstracted to models.
pub open spec fn spec_opt_response_view(r: Option<BinaryResponse>) -> Option<ResponseModel> {
    match r {
        Some(m) => Some(m@),
        None => None,
    }
}

/// One handler bound to a storage engine; each accepted connection feeds its
/// decoded requests through such a handler.
pub struct BinaryHandler {
    storage: Storage,
}

impl View for BinaryHandler {
    type V = StorageModel;

    closed spec fn view(&self) -> StorageModel {
        self.storage@
    }
}

impl BinaryHandler {
    /// Well-formedness of the underlying engine state.
    pub open spec fn wf(&self) -> bool {
        spec_wf(self@)
    }

    /// A handler over the given engine.
    pub fn new(store: Storage) -> (h: BinaryHandler)
        ensures
            h@ == store@,
    {
        BinaryHandler { storage: store }
    }

    /// Whether the engine can still issue a fresh compare-and-swap token;
    /// callers outside the proofs test this before handling a request.
    pub fn has_token_headroom(&self) -> (r: bool)
        ensures
            r == (self@.next_cas < u64::MAX),
    {
        self.storage.has_token_headroom()
    }

    /// A response header answering opcode `cmd` with the request's opaque
    /// value echoed.
    fn create_handler(cmd: u8, opaque: u32) -> (h: ResponseHeader)
        ensures
            h == spec_base_header(cmd, opaque),
    {
        ResponseHeader {
            magic: RESPONSE_MAGIC,
            opcode: cmd,
            key_length: 0,
            extras_length: 0,
            data_type: 0,
            status: STATUS_SUCCESS,
            body_length: 0,
            opaque,
            cas: 0,
        }
    }

    /// Routes one request to its storage call and builds the response:
    /// exactly [`spec_handle`] on the engine state and the request.
    pub fn handle_request(&mut self, req: BinaryRequest, now: u64) -> (r: Option<BinaryResponse>)
        requires
            old(self).wf(),
            old(self)@.next_cas < u64::MAX,
        ensures
            final(self).wf(),
            ({
                let (s2, resp) = spec_handle(old(self)@, req@, now);
                final(self)@ == s2 && spec_opt_response_view(r) == resp
            }),
    {
        match req {
            BinaryRequest::Get(get_request) => {
                let base = Self::create_handler(get_request.header.opcode, get_request.header.opaque);
                match self.storage.get(&get_request.key, now) {
                    Some(Record::Value(data)) => {
                        if data.value.len() > MAX_GET_VALUE_LEN {
                            None
                        } else {
                            let mut header = base;
                            header.extras_length = 4;
                            header.body_length = 4 + (data.value.len() as u32);
                            header.cas = data.header.cas;
                            Some(
                                BinaryResponse::Get(
                                    GetResponse {
                                        header,
                                        flags: data.header.flags,
                                        key: Vec::new(),
                                        value: data.value,
                                    },
                                ),
                            )
                        }
                    },
                    _ => None,
                }
            },
            BinaryRequest::GetQuietly(get_request) => {
                let base = Self::create_handler(get_request.header.opcode, get_request.header.opaque);
                match self.storage.get(&get_request.key, now) {
                    Some(Record::Value(data)) => {
                        if data.value.len() > MAX_GET_VALUE_LEN {
                            None
                        } else {
                            let mut header = base;
                            header.extras_length = 4;
                            header.body_length = 4 + (data.value.len() as u32);
                            header.cas = data.header.cas;
                            Some(
                                BinaryResponse::GetQuietly(
                                    GetResponse {
                                        header,
                                        flags: data.header.flags,
                                        key: Vec::new(),
                                        value: data.value,
                                    },
                                ),
                            )
                        }
                    },
                    _ => None,
                }
            },
            BinaryRequest::GetKey(get_request) => {
                let base = Self::create_handler(get_request.header.opcode, get_request.header.opaque);
                match self.storage.get(&get_request.key, now) {
                    Some(Record::Value(data)) => {
                        if get_request.key.len() > MAX_ECHO_KEY_LEN {
                            None
                        } else {
                            let mut header = base;
                            header.extras_length = 4;
                            header.key_length = get_request.key.len() as u16;
                            header.body_length = 4 + (get_request.key.len() as u32);
                            header.cas = data.header.cas;
                            Some(
                                BinaryResponse::GetKey(
                                    GetKeyResponse {
                                        header,
                                        flags: data.header.flags,
                                        key: get_request.key,
                                    },
                                ),
                            )
                        }
                    },
                    _ => None,
                }
            },
            BinaryRequest::GetKeyQuietly(get_request) => {
                let base = Self::create_handler(get_request.header.opcode, get_request.header.opaque);
                match self.storage.get(&get_request.key, now) {
                    Some(Record::Value(data)) => {
                        if get_request.key.len() > MAX_ECHO_KEY_LEN {
                            None
                        } else {
                            let mut header = base;
                            header.extras_length = 4;
                            header.key_length = get_request.key.len() as u16;
                            header.body_length = 4 + (get_request.key.len() as u32);
                            header.cas = data.header.cas;
                            Some(
                                BinaryResponse::GetKeyQuietly(
                                    GetKeyResponse {
                                        header,
                                        flags: data.header.flags,
                                        key: get_request.key,
                                    },
                                ),
                            )
                        }
                    },
                    _ => None,
                }
            },
            BinaryRequest::SetOp(set_req) => {
                let base = Self::create_handler(set_req.header.opcode, set_req.header.opaque);
                let record = Record::Value(
                    ValueData {
                        header: Header {
                            timestamp: 0,
                            cas: set_req.header.cas,
                            flags: set_req.flags,
                            expiration: set_req.expiration,
                        },
                        value: set_req.value,
                    },
                );
                let res = self.storage.set(set_req.key, record, now);
                let mut header = base;
                match res {
                    Ok(token) => {
                        header.cas = token;
                    },
                    Err(e) => {
                        header.status = status_of(e);
                    },
                }
                Some(BinaryResponse::SetOp(SetResponse { header }))
            },
            BinaryRequest::Add(set_req) => {
                let base = Self::create_handler(set_req.header.opcode, set_req.header.opaque);
                let record = Record::Value(
                    ValueData {
                        header: Header {
                            timestamp: 0,
                            cas: set_req.header.cas,
                            flags: set_req.flags,
                            expiration: set_req.expiration,
                        },
                        value: set_req.value,
                    },
                );
                let res = self.storage.add(set_req.key, record, now);
                let mut header = base;
                match res {
                    Ok(token) => {
                        header.cas = token;
                    },
                    Err(e) => {
                        header.status = status_of(e);
                    },
                }
                Some(BinaryResponse::Add(SetResponse { header }))
            },
            BinaryRequest::Replace(set_req) => {
                let base = Self::create_handler(set_req.header.opcode, set_req.header.opaque);
                let record = Record::Value(
                    ValueData {
                        header: Header {
                            timestamp: 0,
                            cas: set_req.header.cas,
                            flags: set_req.flags,
                            expiration: set_req.expiration,
                        },
                        value: set_req.value,
                    },
                );
                let res = self.storage.replace(set_req.key, record, now);
                let mut header = base;
                match res {
                    Ok(token) => {
                        header.cas = token;
                    },
                    Err(e) => {
                        header.status = status_of(e);
                    },
                }
                Some(BinaryResponse::Replace(SetResponse { header }))
            },
        }
    }
}


/// Round trip: any store request the decoder produced, handled against a
/// well-formed engine, answers success with the fresh nonzero token; a get
/// for the same key, at any time before the record expires, answers exactly
/// the stored flags and value under that same token, and its encoding
/// carries the request's four flag bytes and its value bytes verbatim. Keys
/// longer than the engine's limit are the one inputs left out: the store
/// itself rejects them.
pub proof fn lemma_set_then_get_round_trip(
    s: StorageModel,
    bytes: Seq<u8>,
    h: crate::binary::RequestHeader,
    flags: u32,
    flag_bytes: Seq<u8>,
    expiration: u32,
    key: Seq<u8>,
    value: Seq<u8>,
    g: crate::binary::RequestHeader,
    now: u64,
    later: u64,
)
    requires
        spec_wf(s),
        s.next_cas < u64::MAX,
        crate::binary_codec::spec_decode(crate::binary_codec::spec_initial_codec(), bytes).2
            == Ok::<Option<RequestModel>, crate::binary_codec::CodecError>(
            Some(RequestModel::SetOp { header: h, flags, expiration, key, value }),
        ),
        flag_bytes.len() == 4,
        crate::wire::spec_be32(flag_bytes) == flags,
        key.len() <= crate::binary::MAX_KEY_LEN,
        expiration == 0 || later <= expiration,
    ensures
        ({
            let (s1, r1) = spec_handle(
                s,
                RequestModel::SetOp { header: h, flags, expiration, key, value },
                now,
            );
            let (s2, r2) = spec_handle(s1, RequestModel::Get { header: g, key }, later);
            &&& r1 == Some(
                ResponseModel::SetOp {
                    header: spec_store_header(h.opcode, h.opaque, Ok(s.next_cas)),
                },
            )
            &&& spec_store_header(h.opcode, h.opaque, Ok(s.next_cas)).cas != 0
            &&& s2 == s1
            &&& (r2 matches Some(ResponseModel::Get { header: rh, flags: f2, key: k2, value: v2 })
                && f2 == flags && v2 == value && rh.cas == s.next_cas)
            &&& (r2 matches Some(m) ==> crate::binary_codec::spec_encode(m)
                == crate::binary_codec::spec_response_header_bytes(
                crate::binary_codec::spec_rsp_header(m),
            ) + flag_bytes + value)
        }),
{
    crate::binary_codec::lemma_decode_value_bounded(
        crate::binary_codec::spec_initial_codec(),
        bytes,
    );
    crate::wire::lemma_u32_bytes_roundtrip(flag_bytes);
    let (s1, r1) = spec_handle(
        s,
        RequestModel::SetOp { header: h, flags, expiration, key, value },
        now,
    );
    let (s2, r2) = spec_handle(s1, RequestModel::Get { header: g, key }, later);
    if let Some(m) = r2 {
        assert(crate::binary_codec::spec_payload(m) =~= flag_bytes + value);
        assert(crate::binary_codec::spec_encode(m)
            =~= crate::binary_codec::spec_response_header_bytes(
            crate::binary_codec::spec_rsp_header(m),
        ) + flag_bytes + value);
    }
}


/// Every response the handler emits is well-formed for the encoder: its
/// declared body length counts its payload bytes exactly, so the encoded
/// frame occupies exactly the announced length.
pub proof fn lemma_handler_response_wf(s: StorageModel, req: RequestModel, now: u64)
    ensures
        spec_handle(s, req, now).1 matches Some(m)
            ==> crate::binary_codec::spec_response_wf(m),
{
}

} // verus!

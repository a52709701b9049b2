//! Fixed-layout header structures and the opcode catalogue of the binary
//! wire protocol.
//!
//! A frame is a 24-byte header followed by `body_length` payload bytes; the
//! payload is extras, then key, then value. Request and response headers share
//! the same layout except that the two bytes after `data_type` are reserved in
//! a request and carry a status code in a response.

use vstd::prelude::*;

verus! {

/// First header byte of every request frame.
pub const REQUEST_MAGIC: u8 = 0x80;

/// First header byte of every response frame.
pub const RESPONSE_MAGIC: u8 = 0x81;

/// Longest key the storage engine accepts, in bytes.
pub const MAX_KEY_LEN: usize = 250;

/// Wire status: operation succeeded.
pub const STATUS_SUCCESS: u16 = 0x0000;

/// Wire status: no record under the key.
pub const STATUS_KEY_NOT_FOUND: u16 = 0x0001;

/// Wire status: a record already exists, or a compare-and-swap token differed.
pub const STATUS_KEY_EXISTS: u16 = 0x0002;

/// Wire status: the request arguments are invalid (for instance an oversized key).
pub const STATUS_INVALID_ARGUMENTS: u16 = 0x0004;

/// Wire status: an arithmetic operation hit a record of the wrong kind.
pub const STATUS_NON_NUMERIC_VALUE: u16 = 0x0006;

/// Header of a request frame, in field order on the wire. Multi-byte fields
/// are big-endian. `body_length` counts all payload bytes that follow the
/// header: extras, key and value together.
#[derive(Clone, Copy, Debug, PartialEq, Eq, Structural)]
pub struct RequestHeader {
    pub magic: u8,
    pub opcode: u8,
    pub key_length: u16,
    pub extras_length: u8,
    pub data_type: u8,
    pub reserved: u16,
    pub body_length: u32,
    pub opaque: u32,
    pub cas: u64,
}

/// Header of a response frame: the same layout as a request header with the
/// reserved field replaced by a status code.
#[derive(Clone, Copy, Debug, PartialEq, Eq, Structural)]
pub struct ResponseHeader {
    pub magic: u8,
    pub opcode: u8,
    pub key_length: u16,
    pub extras_length: u8,
    pub data_type: u8,
    pub status: u16,
    pub body_length: u32,
    pub opaque: u32,
    pub cas: u64,
}

/// The commands of the opcode space. Only the get and set families carry a
/// payload contract here; the rest are defined extension points.
#[derive(Clone, Copy, Debug, PartialEq, Eq, Structural)]
pub enum Command {
    Get,
    SetOp,
    Add,
    Replace,
    Delete,
    Increment,
    Decrement,
    Quit,
    Flush,
    GetQuiet,
    Noop,
    Version,
    GetKey,
    GetKeyQuiet,
    Append,
    Prepend,
    Stat,
    SetQuiet,
    AddQuiet,
    ReplaceQuiet,
    DeleteQuiet,
    IncrementQuiet,
    DecrementQuiet,
    QuitQuiet,
    FlushQuiet,
    AppendQuiet,
    PrependQuiet,
    Touch,
    GetAndTouch,
    GetAndTouchQuiet,
    SaslListMechs,
    SaslAuth,
    SaslStep,
    GetAndTouchKey,
    GetAndTouchKeyQuiet,
}

/// The command an opcode byte selects, or `None` for a byte outside the
/// opcode space.
pub open spec fn spec_command_of(op: u8) -> Option<Command> {
    if op == 0x00 {
        Some(Command::Get)
    } else if op == 0x01 {
        Some(Command::SetOp)
    } else if op == 0x02 {
        Some(Command::Add)
    } else if op == 0x03 {
        Some(Command::Replace)
    } else if op == 0x04 {
        Some(Command::Delete)
    } else if op == 0x05 {
        Some(Command::Increment)
    } else if op == 0x06 {
        Some(Command::Decrement)
    } else if op == 0x07 {
        Some(Command::Quit)
    } else if op == 0x08 {
        Some(Command::Flush)
    } else if op == 0x09 {
        Some(Command::GetQuiet)
    } else if op == 0x0a {
        Some(Command::Noop)
    } else if op == 0x0b {
        Some(Command::Version)
    } else if op == 0x0c {
        Some(Command::GetKey)
    } else if op == 0x0d {
        Some(Command::GetKeyQuiet)
    } else if op == 0x0e {
        Some(Command::Append)
    } else if op == 0x0f {
        Some(Command::Prepend)
    } else if op == 0x10 {
        Some(Command::Stat)
    } else if op == 0x11 {
        Some(Command::SetQuiet)
    } else if op == 0x12 {
        Some(Command::AddQuiet)
    } else if op == 0x13 {
        Some(Command::ReplaceQuiet)
    } else if op == 0x14 {
        Some(Command::DeleteQuiet)
    } else if op == 0x15 {
        Some(Command::IncrementQuiet)
    } else if op == 0x16 {
        Some(Command::DecrementQuiet)
    } else if op == 0x17 {
        Some(Command::QuitQuiet)
    } else if op == 0x18 {
        Some(Command::FlushQuiet)
    } else if op == 0x19 {
        Some(Command::AppendQuiet)
    } else if op == 0x1a {
        Some(Command::PrependQuiet)
    } else if op == 0x1c {
        Some(Command::Touch)
    } else if op == 0x1d {
        Some(Command::GetAndTouch)
    } else if op == 0x1e {
        Some(Command::GetAndTouchQuiet)
    } else if op == 0x20 {
        Some(Command::SaslListMechs)
    } else if op == 0x21 {
        Some(Command::SaslAuth)
    } else if op == 0x22 {
        Some(Command::SaslStep)
    } else if op == 0x23 {
        Some(Command::GetAndTouchKey)
    } else if op == 0x24 {
        Some(Command::GetAndTouchKeyQuiet)
    } else {
        None
    }
}

/// Decodes one opcode byte into its command.
pub fn command_from_u8(op: u8) -> (r: Option<Command>)
    ensures
        r == spec_command_of(op),
{
    if op == 0x00 {
        Some(Command::Get)
    } else if op == 0x01 {
        Some(Command::SetOp)
    } else if op == 0x02 {
        Some(Command::Add)
    } else if op == 0x03 {
        Some(Command::Replace)
    } else if op == 0x04 {
        Some(Command::Delete)
    } else if op == 0x05 {
        Some(Command::Increment)
    } else if op == 0x06 {
        Some(Command::Decrement)
    } else if op == 0x07 {
        Some(Command::Quit)
    } else if op == 0x08 {
        Some(Command::Flush)
    } else if op == 0x09 {
        Some(Command::GetQuiet)
    } else if op == 0x0a {
        Some(Command::Noop)
    } else if op == 0x0b {
        Some(Command::Version)
    } else if op == 0x0c {
        Some(Command::GetKey)
    } else if op == 0x0d {
        Some(Command::GetKeyQuiet)
    } else if op == 0x0e {
        Some(Command::Append)
    } else if op == 0x0f {
        Some(Command::Prepend)
    } else if op == 0x10 {
        Some(Command::Stat)
    } else if op == 0x11 {
        Some(Command::SetQuiet)
    } else if op == 0x12 {
        Some(Command::AddQuiet)
    } else if op == 0x13 {
        Some(Command::ReplaceQuiet)
    } else if op == 0x14 {
        Some(Command::DeleteQuiet)
    } else if op == 0x15 {
        Some(Command::IncrementQuiet)
    } else if op == 0x16 {
        Some(Command::DecrementQuiet)
    } else if op == 0x17 {
        Some(Command::QuitQuiet)
    } else if op == 0x18 {
        Some(Command::FlushQuiet)
    } else if op == 0x19 {
        Some(Command::AppendQuiet)
    } else if op == 0x1a {
        Some(Command::PrependQuiet)
    } else if op == 0x1c {
        Some(Command::Touch)
    } else if op == 0x1d {
        Some(Command::GetAndTouch)
    } else if op == 0x1e {
        Some(Command::GetAndTouchQuiet)
    } else if op == 0x20 {
        Some(Command::SaslListMechs)
    } else if op == 0x21 {
        Some(Command::SaslAuth)
    } else if op == 0x22 {
        Some(Command::SaslStep)
    } else if op == 0x23 {
        Some(Command::GetAndTouchKey)
    } else if op == 0x24 {
        Some(Command::GetAndTouchKeyQuiet)
    } else {
        None
    }
}

/// True of the four read commands whose body is the key alone.
pub open spec fn spec_is_get_family(c: Command) -> bool {
    c == Command::Get || c == Command::GetQuiet || c == Command::GetKey || c == Command::GetKeyQuiet
}

/// True of the three store commands whose extras are flags and expiration.
pub open spec fn spec_is_set_family(c: Command) -> bool {
    c == Command::SetOp || c == Command::Add || c == Command::Replace
}

/// A read request: the body is the key alone.
#[derive(Clone, Debug)]
pub struct GetRequest {
    pub header: RequestHeader,
    pub key: Vec<u8>,
}

pub type GetQuietRequest = GetRequest;

pub type GetKeyRequest = GetRequest;

pub type GetKeyQuietRequest = GetRequest;

/// A store request: eight extras bytes carry flags and expiration, then the
/// key and the value follow.
#[derive(Clone, Debug)]
pub struct SetRequest {
    pub header: RequestHeader,
    pub flags: u32,
    pub expiration: u32,
    pub key: Vec<u8>,
    pub value: Vec<u8>,
}

pub type AddRequest = SetRequest;

pub type ReplaceRequest = SetRequest;

/// A read response carrying flags, an optional key echo and the value.
#[derive(Clone, Debug)]
pub struct GetResponse {
    pub header: ResponseHeader,
    pub flags: u32,
    pub key: Vec<u8>,
    pub value: Vec<u8>,
}

pub type GetQuietlyResponse = GetResponse;

/// A read response that echoes flags and key without the value.
#[derive(Clone, Debug)]
pub struct GetKeyResponse {
    pub header: ResponseHeader,
    pub flags: u32,
    pub key: Vec<u8>,
}

pub type GetKeyQuietlyResponse = GetKeyResponse;

/// A store response: the header alone.
#[derive(Clone, Debug)]
pub struct SetResponse {
    pub header: ResponseHeader,
}

pub type AddResponse = SetResponse;

pub type ReplaceResponse = SetResponse;

} // verus!

//! Commands, responses and opcodes of the wire protocol.
//!
//! Keys travel on the wire as length-prefixed byte sequences; key equality is
//! byte-exact. Values are opaque byte buffers. A `ttl_sec` of 0 means "no
//! expiry".
use vstd::prelude::*;

verus! {

pub const OP_GET: u8 = 0x01;

pub const OP_SET: u8 = 0x02;

pub const OP_PING: u8 = 0x03;

pub const RESP_OK: u8 = 0x00;

pub const RESP_NOT_FOUND: u8 = 0x01;

pub const RESP_FOUND: u8 = 0x02;

pub const RESP_ERROR: u8 = 0xFF;

/// A request decoded from a connection.
#[derive(Debug, Clone)]
pub enum Command {
    Get { key: Vec<u8> },
    Put { key: Vec<u8>, value: Vec<u8>, ttl_sec: u64 },
    Ping,
}

/// The mathematical shape of a `Command`.
pub enum CommandView {
    Get { key: Seq<u8> },
    Put { key: Seq<u8>, value: Seq<u8>, ttl_sec: u64 },
    Ping,
}

impl View for Command {
    type V = CommandView;

    open spec fn view(&self) -> CommandView {
        match self {
            Command::Get { key } => CommandView::Get { key: key@ },
            Command::Put { key, value, ttl_sec } => CommandView::Put {
                key: key@,
                value: value@,
                ttl_sec: *ttl_sec,
            },
            Command::Ping => CommandView::Ping,
        }
    }
}

/// A reply sent back on a connection.
#[derive(Debug)]
pub enum Response {
    Okay,
    Found(Vec<u8>),
    NotFound,
    Error(Vec<u8>),
}

/// The mathematical shape of a `Response`.
pub enum ResponseView {
    Okay,
    Found(Seq<u8>),
    NotFound,
    Error(Seq<u8>),
}

impl View for Response {
    type V = ResponseView;

    open spec fn view(&self) -> ResponseView {
        match self {
            Response::Okay => ResponseView::Okay,
            Response::Found(d) => ResponseView::Found(d@),
            Response::NotFound => ResponseView::NotFound,
            Response::Error(m) => ResponseView::Error(m@),
        }
    }
}

/// Why a byte stream cannot be decoded. Either error is fatal to its
/// connection: the codec has lost frame alignment and does not resync.
#[derive(Debug, Clone, Copy, PartialEq, Eq, Structural)]
pub enum DecodeError {
    InvalidOpcode,
    InvalidKeyUtf8,
}

} // verus!

//! The frame encoder: writes exactly the bytes of the wire tables, for
//! responses (what the server sends) and for commands (what a client sends).
use vstd::prelude::*;

use super::types::{
    Command, CommandView, Response, ResponseView, OP_GET, OP_PING, OP_SET, RESP_ERROR, RESP_FOUND,
    RESP_NOT_FOUND, RESP_OK,
};
use super::wire::{append_bytes, be32_bytes, be64_bytes, put_u32_be, put_u64_be};
use super::CacheCodec;

verus! {

/// A response whose variable-length field fits its four-byte length prefix.
pub open spec fn encodable_response(r: ResponseView) -> bool {
    match r {
        ResponseView::Okay => true,
        ResponseView::NotFound => true,
        ResponseView::Found(d) => d.len() <= u32::MAX,
        ResponseView::Error(m) => m.len() <= u32::MAX,
    }
}

/// The exact bytes of a response frame.
pub open spec fn encode_response_spec(r: ResponseView) -> Seq<u8> {
    match r {
        ResponseView::Okay => seq![RESP_OK],
        ResponseView::NotFound => seq![RESP_NOT_FOUND],
        ResponseView::Found(d) => seq![RESP_FOUND] + be32_bytes(d.len() as u32) + d,
        ResponseView::Error(m) => seq![RESP_ERROR] + be32_bytes(m.len() as u32) + m,
    }
}

/// A command whose key and value fit their four-byte length prefixes.
pub open spec fn encodable_command(c: CommandView) -> bool {
    match c {
        CommandView::Ping => true,
        CommandView::Get { key } => key.len() <= u32::MAX,
        CommandView::Put { key, value, ttl_sec } => key.len() <= u32::MAX && value.len()
            <= u32::MAX,
    }
}

/// The exact bytes of a command frame.
pub open spec fn encode_command_spec(c: CommandView) -> Seq<u8> {
    match c {
        CommandView::Ping => seq![OP_PING],
        CommandView::Get { key } => seq![OP_GET] + be32_bytes(key.len() as u32) + key,
        CommandView::Put { key, value, ttl_sec } => seq![OP_SET] + be32_bytes(key.len() as u32)
            + key + be32_bytes(value.len() as u32) + value + be64_bytes(ttl_sec),
    }
}

impl CacheCodec {
    /// Appends the frame for `item` to `dst`: exactly the bytes of the
    /// response table, nothing else.
    pub fn encode(&mut self, item: Response, dst: &mut Vec<u8>)
        requires
            encodable_response(item@),
        ensures
            final(dst)@ == old(dst)@ + encode_response_spec(item@),
    {
        match item {
            Response::Okay => {
                dst.push(RESP_OK);
                proof {
                    assert(dst@ =~= old(dst)@ + encode_response_spec(ResponseView::Okay));
                }
            },
            Response::NotFound => {
                dst.push(RESP_NOT_FOUND);
                proof {
                    assert(dst@ =~= old(dst)@ + encode_response_spec(ResponseView::NotFound));
                }
            },
            Response::Found(data) => {
                dst.push(RESP_FOUND);
                put_u32_be(dst, data.len() as u32);
                append_bytes(dst, data.as_slice());
                proof {
                    assert(dst@ =~= old(dst)@ + encode_response_spec(ResponseView::Found(data@)));
                }
            },
            Response::Error(message) => {
                dst.push(RESP_ERROR);
                put_u32_be(dst, message.len() as u32);
                append_bytes(dst, message.as_slice());
                proof {
                    assert(dst@ =~= old(dst)@ + encode_response_spec(
                        ResponseView::Error(message@),
                    ));
                }
            },
        }
    }
}

/// The frame bytes of a whole command, as a client writes them.
pub fn encode_command_bytes(c: &Command) -> (r: Vec<u8>)
    requires
        encodable_command(c@),
    ensures
        r@ == encode_command_spec(c@),
{
    let mut out: Vec<u8> = Vec::new();
    match c {
        Command::Ping => {
            out.push(OP_PING);
            proof {
                assert(out@ =~= encode_command_spec(c@));
            }
        },
        Command::Get { key } => {
            out.push(OP_GET);
            put_u32_be(&mut out, key.len() as u32);
            append_bytes(&mut out, key.as_slice());
            proof {
                assert(out@ =~= encode_command_spec(c@));
            }
        },
        Command::Put { key, value, ttl_sec } => {
            out.push(OP_SET);
            put_u32_be(&mut out, key.len() as u32);
            append_bytes(&mut out, key.as_slice());
            put_u32_be(&mut out, value.len() as u32);
            append_bytes(&mut out, value.as_slice());
            put_u64_be(&mut out, *ttl_sec);
            proof {
                assert(out@ =~= encode_command_spec(c@));
            }
        },
    }
    out
}

} // verus!

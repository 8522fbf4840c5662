//! The resumable frame decoder.
//!
//! `decode_spec` is the frame grammar: on any byte sequence it yields either
//! one complete frame and its length, "need more bytes", or a fatal decode
//! error. The executable decoder is proved to follow it exactly, consuming
//! nothing until a whole frame is present.
use vstd::prelude::*;

use super::text::{is_utf8, lossy_of, utf8_lossy, utf8_valid};
use super::types::{
    Command, CommandView, DecodeError, Response, ResponseView, OP_GET, OP_PING, OP_SET, RESP_ERROR,
    RESP_FOUND, RESP_NOT_FOUND, RESP_OK,
};
use super::wire::{be32, be64, drain_prefix, read_u32_be, read_u64_be, subrange_vec};
use super::CacheCodec;

verus! {

/// One step of decoding: a whole frame together with the number of bytes it
/// occupies, or a request for more input.
pub enum Decoded {
    Frame(Command, usize),
    NeedMore,
}

/// The mathematical shape of a decoding step.
pub enum DecodedView {
    Frame(CommandView, int),
    NeedMore,
}

/// The frame grammar for a GET: opcode, key length, key. The key must be
/// valid UTF-8; anything else is a fatal decode error.
pub open spec fn decode_get_spec(b: Seq<u8>) -> Result<DecodedView, DecodeError> {
    if b.len() < 5 {
        Ok(DecodedView::NeedMore)
    } else {
        let klen = be32(b.subrange(1, 5));
        if b.len() < 5 + klen {
            Ok(DecodedView::NeedMore)
        } else {
            let raw = b.subrange(5, 5 + klen);
            if is_utf8(raw) {
                Ok(DecodedView::Frame(CommandView::Get { key: raw }, 5 + klen))
            } else {
                Err(DecodeError::InvalidKeyUtf8)
            }
        }
    }
}

/// The frame grammar for a SET: opcode, key length, key, value length,
/// value, TTL. A key that is not valid UTF-8 is tolerated by lossy
/// replacement.
pub open spec fn decode_set_spec(b: Seq<u8>) -> Result<DecodedView, DecodeError> {
    if b.len() < 5 {
        Ok(DecodedView::NeedMore)
    } else {
        let klen = be32(b.subrange(1, 5));
        if b.len() < 9 + klen {
            Ok(DecodedView::NeedMore)
        } else {
            let vlen = be32(b.subrange(5 + klen, 9 + klen));
            let total = 17 + klen + vlen;
            if b.len() < total {
                Ok(DecodedView::NeedMore)
            } else {
                let raw = b.subrange(5, 5 + klen);
                let key = if is_utf8(raw) {
                    raw
                } else {
                    lossy_of(raw)
                };
                Ok(
                    DecodedView::Frame(
                        CommandView::Put {
                            key,
                            value: b.subrange(9 + klen, 9 + klen + vlen),
                            ttl_sec: be64(b.subrange(9 + klen + vlen, total)) as u64,
                        },
                        total,
                    ),
                )
            }
        }
    }
}

/// What one invocation of the decoder does on buffer contents `b`.
pub open spec fn decode_spec(b: Seq<u8>) -> Result<DecodedView, DecodeError> {
    if b.len() == 0 {
        Ok(DecodedView::NeedMore)
    } else if b[0] == OP_PING {
        Ok(DecodedView::Frame(CommandView::Ping, 1))
    } else if b[0] == OP_GET {
        decode_get_spec(b)
    } else if b[0] == OP_SET {
        decode_set_spec(b)
    } else {
        Err(DecodeError::InvalidOpcode)
    }
}

/// `r` is exactly what `decode_spec` prescribes for input `b`.
pub open spec fn decodes_to(b: Seq<u8>, r: Result<Decoded, DecodeError>) -> bool {
    match decode_spec(b) {
        Ok(DecodedView::NeedMore) => r matches Ok(Decoded::NeedMore),
        Ok(DecodedView::Frame(cv, n)) => r matches Ok(Decoded::Frame(c, m)) && c@ == cv && m == n,
        Err(e) => r matches Err(e2) && e2 == e,
    }
}

/// A complete frame occupies at least one byte and no more than the buffer
/// holds.
pub proof fn lemma_frame_len(b: Seq<u8>)
    ensures
        decode_spec(b) matches Ok(DecodedView::Frame(cv, n)) ==> 0 < n <= b.len(),
{
}

/// Decodes one frame from the front of `src` without consuming anything.
pub fn decode_frame(src: &[u8]) -> (r: Result<Decoded, DecodeError>)
    ensures
        decodes_to(src@, r),
{
    if src.len() == 0 {
        return Ok(Decoded::NeedMore);
    }
    let op = src[0];
    if op == OP_PING {
        Ok(Decoded::Frame(Command::Ping, 1))
    } else if op == OP_GET {
        if src.len() < 5 {
            return Ok(Decoded::NeedMore);
        }
        let klen = read_u32_be(src, 1) as usize;
        if (src.len() as u64) < 5u64 + (klen as u64) {
            return Ok(Decoded::NeedMore);
        }
        let raw = subrange_vec(src, 5, 5 + klen);
        if utf8_valid(raw.as_slice()) {
            Ok(Decoded::Frame(Command::Get { key: raw }, 5 + klen))
        } else {
            Err(DecodeError::InvalidKeyUtf8)
        }
    } else if op == OP_SET {
        if src.len() < 5 {
            return Ok(Decoded::NeedMore);
        }
        let klen = read_u32_be(src, 1) as usize;
        if (src.len() as u64) < 9u64 + (klen as u64) {
            return Ok(Decoded::NeedMore);
        }
        let vlen = read_u32_be(src, 5 + klen) as usize;
        if (src.len() as u64) < 17u64 + (klen as u64) + (vlen as u64) {
            return Ok(Decoded::NeedMore);
        }
        let raw = subrange_vec(src, 5, 5 + klen);
        let key = utf8_lossy(&raw);
        let value = subrange_vec(src, 9 + klen, 9 + klen + vlen);
        let ttl_sec = read_u64_be(src, 9 + klen + vlen);
        Ok(Decoded::Frame(Command::Put { key, value, ttl_sec }, 17 + klen + vlen))
    } else {
        Err(DecodeError::InvalidOpcode)
    }
}

/// One step of decoding a response: a whole response frame with its length,
/// or a request for more input.
pub enum RespDecoded {
    Frame(Response, usize),
    NeedMore,
}

/// The mathematical shape of a response decoding step.
pub enum RespDecodedView {
    Frame(ResponseView, int),
    NeedMore,
}

/// What decoding one response does on buffer contents `b`. Responses with a
/// payload carry a four-byte length prefix before it.
pub open spec fn decode_response_spec(b: Seq<u8>) -> Result<RespDecodedView, DecodeError> {
    if b.len() == 0 {
        Ok(RespDecodedView::NeedMore)
    } else if b[0] == RESP_OK {
        Ok(RespDecodedView::Frame(ResponseView::Okay, 1))
    } else if b[0] == RESP_NOT_FOUND {
        Ok(RespDecodedView::Frame(ResponseView::NotFound, 1))
    } else if b[0] == RESP_FOUND || b[0] == RESP_ERROR {
        if b.len() < 5 {
            Ok(RespDecodedView::NeedMore)
        } else {
            let n = be32(b.subrange(1, 5));
            if b.len() < 5 + n {
                Ok(RespDecodedView::NeedMore)
            } else {
                let body = b.subrange(5, 5 + n);
                if b[0] == RESP_FOUND {
                    Ok(RespDecodedView::Frame(ResponseView::Found(body), 5 + n))
                } else {
                    Ok(RespDecodedView::Frame(ResponseView::Error(body), 5 + n))
                }
            }
        }
    } else {
        Err(DecodeError::InvalidOpcode)
    }
}

/// Decodes one response from the front of `src` without consuming anything;
/// the counterpart of the encoder, as a client reads replies.
pub fn decode_response(src: &[u8]) -> (r: Result<RespDecoded, DecodeError>)
    ensures
        match decode_response_spec(src@) {
            Ok(RespDecodedView::NeedMore) => r matches Ok(RespDecoded::NeedMore),
            Ok(RespDecodedView::Frame(rv, n)) => r matches Ok(RespDecoded::Frame(p, m)) && p@ == rv
                && m == n,
            Err(e) => r matches Err(e2) && e2 == e,
        },
{
    if src.len() == 0 {
        return Ok(RespDecoded::NeedMore);
    }
    let tag = src[0];
    if tag == RESP_OK {
        Ok(RespDecoded::Frame(Response::Okay, 1))
    } else if tag == RESP_NOT_FOUND {
        Ok(RespDecoded::Frame(Response::NotFound, 1))
    } else if tag == RESP_FOUND || tag == RESP_ERROR {
        if src.len() < 5 {
            return Ok(RespDecoded::NeedMore);
        }
        let n = read_u32_be(src, 1) as usize;
        if (src.len() as u64) < 5u64 + (n as u64) {
            return Ok(RespDecoded::NeedMore);
        }
        let body = subrange_vec(src, 5, 5 + n);
        if tag == RESP_FOUND {
            Ok(RespDecoded::Frame(Response::Found(body), 5 + n))
        } else {
            Ok(RespDecoded::Frame(Response::Error(body), 5 + n))
        }
    } else {
        Err(DecodeError::InvalidOpcode)
    }
}

impl CacheCodec {
    /// One invocation of the decoder on the connection's read buffer: either
    /// consumes exactly one complete frame and returns its command, returns
    /// "need more bytes" with the buffer untouched, or reports a fatal
    /// decode error with the buffer untouched.
    pub fn decode(&mut self, src: &mut Vec<u8>) -> (r: Result<Option<Command>, DecodeError>)
        ensures
            match decode_spec(old(src)@) {
                Ok(DecodedView::NeedMore) => r matches Ok(None) && final(src)@ == old(src)@,
                Ok(DecodedView::Frame(cv, n)) => r matches Ok(Some(c)) && c@ == cv && final(src)@
                    == old(src)@.skip(n),
                Err(e) => r matches Err(e2) && e2 == e && final(src)@ == old(src)@,
            },
    {
        proof {
            lemma_frame_len(src@);
        }
        match decode_frame(src.as_slice()) {
            Ok(Decoded::Frame(c, n)) => {
                drain_prefix(src, n);
                Ok(Some(c))
            },
            Ok(Decoded::NeedMore) => Ok(None),
            Err(e) => Err(e),
        }
    }
}

} // verus!

//! Laws of the codec: encoding and decoding are inverse on well-formed
//! frames, and a strict prefix of a frame never decodes to anything but
//! "need more bytes".
use vstd::prelude::*;

use super::decoder::{decode_response_spec, decode_spec, DecodedView, RespDecodedView};
use super::encoder::{
    encodable_command, encodable_response, encode_command_spec, encode_response_spec,
};
use super::text::is_utf8;
use super::types::{CommandView, DecodeError, ResponseView, OP_GET, OP_PING, OP_SET};
use super::wire::{be32_bytes, be64_bytes, lemma_be32_roundtrip, lemma_be64_roundtrip};

verus! {

/// A command that can appear on the wire: its lengths fit their prefixes and
/// its key is valid UTF-8 (keys are UTF-8 text for this protocol).
pub open spec fn wf_command(c: CommandView) -> bool {
    encodable_command(c) && match c {
        CommandView::Get { key } => is_utf8(key),
        CommandView::Put { key, value, ttl_sec } => is_utf8(key),
        CommandView::Ping => true,
    }
}

/// Codec round trip for commands: decoding the encoding of any well-formed
/// command yields that command back, as one frame spanning all the bytes.
pub proof fn lemma_command_round_trip(c: CommandView)
    requires
        wf_command(c),
    ensures
        decode_spec(encode_command_spec(c)) == Ok::<DecodedView, DecodeError>(
            DecodedView::Frame(c, encode_command_spec(c).len() as int),
        ),
{
    let b = encode_command_spec(c);
    match c {
        CommandView::Ping => {
            assert(b =~= seq![OP_PING]);
        },
        CommandView::Get { key } => {
            let klen = key.len() as int;
            lemma_be32_roundtrip(key.len() as u32);
            assert(b.len() == 5 + klen);
            assert(b[0] == OP_GET);
            assert(b.subrange(1, 5) =~= be32_bytes(key.len() as u32));
            assert(b.subrange(5, 5 + klen) =~= key);
        },
        CommandView::Put { key, value, ttl_sec } => {
            let klen = key.len() as int;
            let vlen = value.len() as int;
            lemma_be32_roundtrip(key.len() as u32);
            lemma_be32_roundtrip(value.len() as u32);
            lemma_be64_roundtrip(ttl_sec);
            assert(b.len() == 17 + klen + vlen);
            assert(b[0] == OP_SET);
            assert(b.subrange(1, 5) =~= be32_bytes(key.len() as u32));
            assert(b.subrange(5, 5 + klen) =~= key);
            assert(b.subrange(5 + klen, 9 + klen) =~= be32_bytes(value.len() as u32));
            assert(b.subrange(9 + klen, 9 + klen + vlen) =~= value);
            assert(b.subrange(9 + klen + vlen, 17 + klen + vlen) =~= be64_bytes(ttl_sec));
        },
    }
}

/// Codec round trip for responses: decoding the encoding of any encodable
/// response yields that response back, as one frame spanning all the bytes.
pub proof fn lemma_response_round_trip(r: ResponseView)
    requires
        encodable_response(r),
    ensures
        decode_response_spec(encode_response_spec(r)) == Ok::<RespDecodedView, DecodeError>(
            RespDecodedView::Frame(r, encode_response_spec(r).len() as int),
        ),
{
    let b = encode_response_spec(r);
    match r {
        ResponseView::Okay => {
            assert(b =~= seq![0u8]);
        },
        ResponseView::NotFound => {
            assert(b =~= seq![1u8]);
        },
        ResponseView::Found(d) => {
            let n = d.len() as int;
            lemma_be32_roundtrip(d.len() as u32);
            assert(b.len() == 5 + n);
            assert(b[0] == 2);
            assert(b.subrange(1, 5) =~= be32_bytes(d.len() as u32));
            assert(b.subrange(5, 5 + n) =~= d);
        },
        ResponseView::Error(m) => {
            let n = m.len() as int;
            lemma_be32_roundtrip(m.len() as u32);
            assert(b.len() == 5 + n);
            assert(b[0] == 0xFF);
            assert(b.subrange(1, 5) =~= be32_bytes(m.len() as u32));
            assert(b.subrange(5, 5 + n) =~= m);
        },
    }
}

/// A complete frame at the front of the buffer decodes the same whatever
/// bytes follow it, so pipelined frames are consumed one at a time in order.
pub proof fn lemma_frame_extension(b: Seq<u8>, extra: Seq<u8>)
    requires
        decode_spec(b) matches Ok(DecodedView::Frame(c, n)),
    ensures
        decode_spec(b + extra) == decode_spec(b),
{
    let e = b + extra;
    assert(e[0] == b[0]);
    if b[0] == OP_GET {
        assert(e.subrange(1, 5) =~= b.subrange(1, 5));
        let klen = super::wire::be32(b.subrange(1, 5));
        assert(e.subrange(5, 5 + klen) =~= b.subrange(5, 5 + klen));
    } else if b[0] == OP_SET {
        assert(e.subrange(1, 5) =~= b.subrange(1, 5));
        let klen = super::wire::be32(b.subrange(1, 5));
        assert(e.subrange(5, 5 + klen) =~= b.subrange(5, 5 + klen));
        assert(e.subrange(5 + klen, 9 + klen) =~= b.subrange(5 + klen, 9 + klen));
        let vlen = super::wire::be32(b.subrange(5 + klen, 9 + klen));
        assert(e.subrange(9 + klen, 9 + klen + vlen) =~= b.subrange(9 + klen, 9 + klen + vlen));
        assert(e.subrange(9 + klen + vlen, 17 + klen + vlen) =~= b.subrange(
            9 + klen + vlen,
            17 + klen + vlen,
        ));
    }
}

/// Partial-read safety: wherever a buffer holding a complete frame is split,
/// the first part alone decodes to "need more bytes" — never to a spurious
/// frame or an error — and the two parts together are the original buffer,
/// so feeding them in turn decodes the same command as feeding the whole.
pub proof fn lemma_partial_read(b: Seq<u8>, i: int)
    requires
        decode_spec(b) matches Ok(DecodedView::Frame(c, n)) && 0 <= i < n,
    ensures
        decode_spec(b.take(i)) == Ok::<DecodedView, DecodeError>(DecodedView::NeedMore),
        b.take(i) + b.skip(i) == b,
        decode_spec(b.take(i) + b.skip(i)) == decode_spec(b),
{
    assert(b.take(i) + b.skip(i) =~= b);
    let p = b.take(i);
    if i > 0 {
        assert(p[0] == b[0]);
        if b[0] == OP_PING {
            // the frame is one byte long, so i == 0: nothing further
        } else if b[0] == OP_GET {
            if i >= 5 {
                assert(p.subrange(1, 5) =~= b.subrange(1, 5));
            }
        } else if b[0] == OP_SET {
            if i >= 5 {
                assert(p.subrange(1, 5) =~= b.subrange(1, 5));
                let klen = super::wire::be32(b.subrange(1, 5));
                if i >= 9 + klen {
                    assert(p.subrange(5 + klen, 9 + klen) =~= b.subrange(5 + klen, 9 + klen));
                }
            }
        }
    }
}

} // verus!

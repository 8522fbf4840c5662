//! The length-prefixed binary framing used on every connection: command and
//! response types, the stateless resumable decoder, the encoder, and the laws
//! that relate them.
use vstd::prelude::*;

pub mod decoder;
pub mod encoder;
pub mod laws;
pub mod text;
pub mod types;
pub mod wire;

verus! {

/// The stateless codec for the cache protocol. Decoding is resumable across
/// arbitrary fragmentation of the byte stream; the codec keeps no state
/// between frames.
pub struct CacheCodec;

} // verus!

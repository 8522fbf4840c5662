//! The server core: what one decoded command does to the store and what is
//! answered, one step of the per-connection loop, and the admission counter
//! that bounds concurrent sessions.
//!
//! The surrounding I/O — the listener, the sockets, the task that runs each
//! connection — lives with the host program; everything decided here is a
//! function of the bytes read, the store, and the current instant.
use vstd::prelude::*;

use crate::cache::byte_cache::{deadline_for, entry_expired, ByteCache, EntryModel};
use crate::protocol::decoder::{decode_spec, lemma_frame_len, DecodedView};
use crate::protocol::encoder::{encodable_response, encode_response_spec};
use crate::protocol::types::{Command, CommandView, DecodeError, Response, ResponseView};
use crate::protocol::wire::append_bytes;
use crate::protocol::CacheCodec;

verus! {

/// The time-to-live carried by a SET: zero means "no expiry", any positive
/// value means that many seconds from now.
pub open spec fn ttl_option(ttl_sec: u64) -> Option<u64> {
    if ttl_sec == 0 {
        None
    } else {
        Some(ttl_sec)
    }
}

/// The store contents after one command is applied at instant `now`.
pub open spec fn store_after(m: Map<Seq<u8>, EntryModel>, c: CommandView, now: u64) -> Map<
    Seq<u8>,
    EntryModel,
> {
    match c {
        CommandView::Ping => m,
        CommandView::Get { key } => m,
        CommandView::Put { key, value, ttl_sec } => m.insert(
            key,
            (value, deadline_for(ttl_option(ttl_sec), now)),
        ),
    }
}

/// The reply one command earns against store contents `m` at instant `now`.
pub open spec fn response_for(m: Map<Seq<u8>, EntryModel>, c: CommandView, now: u64) -> ResponseView {
    match c {
        CommandView::Ping => ResponseView::Okay,
        CommandView::Get { key } => if m.contains_key(key) && !entry_expired(m[key], now) {
            ResponseView::Found(m[key].0)
        } else {
            ResponseView::NotFound
        },
        CommandView::Put { key, value, ttl_sec } => ResponseView::Okay,
    }
}

/// Every value in the store fits a four-byte length prefix, so every reply
/// can be framed.
pub open spec fn wf_store(m: Map<Seq<u8>, EntryModel>) -> bool {
    forall|k: Seq<u8>| #[trigger] m.contains_key(k) ==> m[k].0.len() <= u32::MAX
}

/// Dispatches one command against the store at instant `now`: PING is
/// acknowledged, GET consults the store without changing it, SET inserts or
/// replaces and is acknowledged.
pub fn handle_command(cache: &mut ByteCache, cmd: Command, now: u64) -> (resp: Response)
    ensures
        resp@ == response_for(old(cache)@, cmd@, now),
        final(cache)@ == store_after(old(cache)@, cmd@, now),
{
    match cmd {
        Command::Ping => Response::Okay,
        Command::Get { key } => {
            match cache.get(&key, now) {
                Some(data) => Response::Found(data),
                None => Response::NotFound,
            }
        },
        Command::Put { key, value, ttl_sec } => {
            let ttl = if ttl_sec > 0 {
                Some(ttl_sec)
            } else {
                None
            };
            cache.set(key, value, ttl, now);
            Response::Okay
        },
    }
}

/// What one step of the connection loop did.
pub enum HandlerStep {
    /// A whole frame was consumed; these reply bytes go back on the socket.
    Reply(Vec<u8>),
    /// No complete frame yet: read more bytes and call again.
    NeedMore,
    /// A fatal decode error: close the connection without a reply.
    Close(DecodeError),
}

/// One step of the per-connection loop: decode at most one frame from the
/// read buffer, dispatch it against the store, and frame the reply. Consumes
/// exactly the decoded frame; on "need more" or a decode error nothing is
/// consumed and the store is untouched.
pub fn handle_frame(cache: &mut ByteCache, buf: &mut Vec<u8>, now: u64) -> (step: HandlerStep)
    requires
        wf_store(old(cache)@),
    ensures
        wf_store(final(cache)@),
        match decode_spec(old(buf)@) {
            Ok(DecodedView::NeedMore) => step matches HandlerStep::NeedMore && final(buf)@ == old(
                buf,
            )@ && final(cache)@ == old(cache)@,
            Ok(DecodedView::Frame(cv, n)) => step matches HandlerStep::Reply(out) && out@
                == encode_response_spec(response_for(old(cache)@, cv, now)) && final(buf)@ == old(
                buf,
            )@.skip(n) && final(cache)@ == store_after(old(cache)@, cv, now),
            Err(e) => step matches HandlerStep::Close(e2) && e2 == e && final(buf)@ == old(buf)@
                && final(cache)@ == old(cache)@,
        },
{
    let mut codec = CacheCodec;
    match codec.decode(buf) {
        Ok(Some(cmd)) => {
            proof {
                assert(encodable_response(response_for(cache@, cmd@, now)));
            }
            let resp = handle_command(cache, cmd, now);
            let mut out: Vec<u8> = Vec::new();
            codec.encode(resp, &mut out);
            HandlerStep::Reply(out)
        },
        Ok(None) => HandlerStep::NeedMore,
        Err(e) => HandlerStep::Close(e),
    }
}

/// What a run of the connection loop over the buffered bytes produces: the
/// store afterwards, the reply bytes in order, the bytes left buffered, and
/// the decode error that closes the connection, if one came.
pub struct SessionView {
    pub store: Map<Seq<u8>, EntryModel>,
    pub replies: Seq<u8>,
    pub rest: Seq<u8>,
    pub err: Option<DecodeError>,
}

/// Running the connection loop on buffer contents `b` against store `m` at
/// instant `now`: whole frames are consumed and answered in order, until the
/// bytes run short or a decode error closes the connection.
pub open spec fn session_spec(m: Map<Seq<u8>, EntryModel>, b: Seq<u8>, now: u64) -> SessionView
    decreases b.len()
    via session_spec_decreases
{
    match decode_spec(b) {
        Ok(DecodedView::NeedMore) => SessionView {
            store: m,
            replies: Seq::empty(),
            rest: b,
            err: None,
        },
        Ok(DecodedView::Frame(c, n)) => {
            let later = session_spec(store_after(m, c, now), b.skip(n), now);
            SessionView {
                store: later.store,
                replies: encode_response_spec(response_for(m, c, now)) + later.replies,
                rest: later.rest,
                err: later.err,
            }
        },
        Err(e) => SessionView { store: m, replies: Seq::empty(), rest: b, err: Some(e) },
    }
}

#[via_fn]
proof fn session_spec_decreases(m: Map<Seq<u8>, EntryModel>, b: Seq<u8>, now: u64) {
    lemma_frame_len(b);
}

/// Runs the connection loop over everything buffered: consumes and answers
/// whole frames in order, stopping when more bytes are needed or when a
/// decode error closes the connection. Returns the reply bytes to write, in
/// command order, and the closing error if one came.
pub fn drain_frames(cache: &mut ByteCache, buf: &mut Vec<u8>, now: u64) -> (r: (
    Vec<u8>,
    Option<DecodeError>,
))
    requires
        wf_store(old(cache)@),
    ensures
        ({
            let s = session_spec(old(cache)@, old(buf)@, now);
            &&& wf_store(final(cache)@)
            &&& final(cache)@ == s.store
            &&& r.0@ == s.replies
            &&& final(buf)@ == s.rest
            &&& r.1 == s.err
        }),
{
    let ghost m0 = cache@;
    let ghost b0 = buf@;
    let mut replies: Vec<u8> = Vec::new();
    proof {
        assert(replies@ + session_spec(cache@, buf@, now).replies =~= session_spec(
            cache@,
            buf@,
            now,
        ).replies);
    }
    loop
        invariant
            m0 == old(cache)@,
            b0 == old(buf)@,
            wf_store(cache@),
            session_spec(m0, b0, now).store == session_spec(cache@, buf@, now).store,
            session_spec(m0, b0, now).replies == replies@ + session_spec(cache@, buf@, now).replies,
            session_spec(m0, b0, now).rest == session_spec(cache@, buf@, now).rest,
            session_spec(m0, b0, now).err == session_spec(cache@, buf@, now).err,
        decreases buf@.len(),
    {
        let ghost pm = cache@;
        let ghost pb = buf@;
        match handle_frame(cache, buf, now) {
            HandlerStep::Reply(out) => {
                proof {
                    lemma_frame_len(pb);
                    assert(session_spec(m0, b0, now).replies =~= (replies@ + out@) + session_spec(
                        cache@,
                        buf@,
                        now,
                    ).replies);
                }
                append_bytes(&mut replies, out.as_slice());
            },
            HandlerStep::NeedMore => {
                proof {
                    assert(replies@ + Seq::<u8>::empty() =~= replies@);
                }
                return (replies, None);
            },
            HandlerStep::Close(e) => {
                proof {
                    assert(replies@ + Seq::<u8>::empty() =~= replies@);
                }
                return (replies, Some(e));
            },
        }
    }
}

/// The admission counter: the model of the fixed-capacity semaphore the
/// accept loop holds. One permit is taken before each accepted connection
/// and given back when its handler exits, so the number of live handler
/// tasks never exceeds `max()`.
pub struct Admission {
    max_connections: usize,
    live: usize,
}

impl Admission {
    /// The capacity the counter was created with.
    pub closed spec fn max(&self) -> int {
        self.max_connections as int
    }

    /// How many permits are out: the number of live handler tasks.
    pub closed spec fn live(&self) -> int {
        self.live as int
    }

    /// The admission bound: live handler tasks never exceed the capacity.
    pub closed spec fn wf(&self) -> bool {
        self.live <= self.max_connections
    }

    /// A counter with every permit free.
    pub fn new(max_connections: usize) -> (r: Self)
        ensures
            r.wf(),
            r.max() == max_connections,
            r.live() == 0,
    {
        Admission { max_connections, live: 0 }
    }

    /// Takes one permit if any is free: succeeds exactly when a permit is
    /// available, and never pushes `live` past the capacity.
    pub fn try_acquire(&mut self) -> (ok: bool)
        requires
            old(self).wf(),
        ensures
            final(self).wf(),
            final(self).max() == old(self).max(),
            ok == (old(self).live() < old(self).max()),
            ok ==> final(self).live() == old(self).live() + 1,
            !ok ==> final(self).live() == old(self).live(),
    {
        if self.live < self.max_connections {
            self.live = self.live + 1;
            true
        } else {
            false
        }
    }

    /// Gives one permit back when a handler exits, on every exit path.
    pub fn release(&mut self)
        requires
            old(self).wf(),
            old(self).live() > 0,
        ensures
            final(self).wf(),
            final(self).max() == old(self).max(),
            final(self).live() == old(self).live() - 1,
    {
        self.live = self.live - 1;
    }
}

/// Admission bound: whatever sequence of acquisitions and releases led to
/// this state, the number of live handler tasks is at most the capacity.
pub proof fn lemma_admission_bound(a: Admission)
    requires
        a.wf(),
    ensures
        a.live() <= a.max(),
{
}

} // verus!

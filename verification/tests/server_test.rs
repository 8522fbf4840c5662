use rust_kvs::cache::ByteCache;
use rust_kvs::protocol::types::{Command, DecodeError, Response};
use rust_kvs::server::{drain_frames, handle_command, handle_frame, Admission, HandlerStep};

fn set_frame(key: &[u8], val: &[u8], ttl_sec: u64) -> Vec<u8> {
    let mut f = Vec::new();
    f.push(0x02u8);
    f.extend_from_slice(&(key.len() as u32).to_be_bytes());
    f.extend_from_slice(key);
    f.extend_from_slice(&(val.len() as u32).to_be_bytes());
    f.extend_from_slice(val);
    f.extend_from_slice(&ttl_sec.to_be_bytes());
    f
}

fn get_frame(key: &[u8]) -> Vec<u8> {
    let mut f = Vec::new();
    f.push(0x01u8);
    f.extend_from_slice(&(key.len() as u32).to_be_bytes());
    f.extend_from_slice(key);
    f
}

/// Feeds `bytes` to a connection's read buffer and runs handler steps until
/// the decoder asks for more input; returns the concatenated reply bytes.
fn feed(cache: &mut ByteCache, buf: &mut Vec<u8>, bytes: &[u8], now: u64) -> Vec<u8> {
    buf.extend_from_slice(bytes);
    let mut replies = Vec::new();
    loop {
        match handle_frame(cache, buf, now) {
            HandlerStep::Reply(out) => replies.extend_from_slice(&out),
            HandlerStep::NeedMore => return replies,
            HandlerStep::Close(e) => panic!("unexpected close: {:?}", e),
        }
    }
}

#[test]
fn scenario_ping() {
    let mut cache = ByteCache::new();
    let mut buf = Vec::new();
    let reply = feed(&mut cache, &mut buf, &[0x03], 0);
    assert_eq!(reply, vec![0x00]);
}

#[test]
fn scenario_set_then_get() {
    let mut cache = ByteCache::new();
    let mut buf = Vec::new();
    // SET key="foo", val="bar", ttl=0
    let set = vec![
        0x02, 0x00, 0x00, 0x00, 0x03, 0x66, 0x6F, 0x6F, 0x00, 0x00, 0x00, 0x03, 0x62, 0x61, 0x72,
        0x00, 0x00, 0x00, 0x00, 0x00, 0x00, 0x00, 0x00,
    ];
    assert_eq!(feed(&mut cache, &mut buf, &set, 0), vec![0x00]);
    // GET "foo"
    let get = vec![0x01, 0x00, 0x00, 0x00, 0x03, 0x66, 0x6F, 0x6F];
    assert_eq!(
        feed(&mut cache, &mut buf, &get, 1),
        vec![0x02, 0x00, 0x00, 0x00, 0x03, 0x62, 0x61, 0x72]
    );
}

#[test]
fn scenario_get_missing() {
    let mut cache = ByteCache::new();
    let mut buf = Vec::new();
    // GET "ghost"
    let get = vec![0x01, 0x00, 0x00, 0x00, 0x05, 0x67, 0x68, 0x6F, 0x73, 0x74];
    assert_eq!(feed(&mut cache, &mut buf, &get, 0), vec![0x01]);
}

#[test]
fn scenario_ttl_expiry() {
    let mut cache = ByteCache::new();
    let mut buf = Vec::new();
    let set = set_frame(b"k", b"v", 1);
    assert_eq!(feed(&mut cache, &mut buf, &set, 0), vec![0x00]);
    // immediately: found
    assert_eq!(
        feed(&mut cache, &mut buf, &get_frame(b"k"), 0),
        vec![0x02, 0x00, 0x00, 0x00, 0x01, 0x76]
    );
    // two seconds later: absent
    assert_eq!(feed(&mut cache, &mut buf, &get_frame(b"k"), 2), vec![0x01]);
}

#[test]
fn scenario_replacement() {
    let mut cache = ByteCache::new();
    let mut buf = Vec::new();
    assert_eq!(feed(&mut cache, &mut buf, &set_frame(b"k", b"v1", 0), 0), vec![0x00]);
    assert_eq!(feed(&mut cache, &mut buf, &set_frame(b"k", b"v2", 0), 0), vec![0x00]);
    assert_eq!(
        feed(&mut cache, &mut buf, &get_frame(b"k"), 0),
        vec![0x02, 0x00, 0x00, 0x00, 0x02, 0x76, 0x32]
    );
}

#[test]
fn scenario_fragmented_set() {
    // the SET frame for key="foo", val="bar" split at every interior byte:
    // exactly one OK reply, and a later GET returns "bar"
    let set = set_frame(b"foo", b"bar", 0);
    for cut in 1..set.len() {
        let mut cache = ByteCache::new();
        let mut buf = Vec::new();
        let first = feed(&mut cache, &mut buf, &set[..cut], 0);
        assert_eq!(first, Vec::<u8>::new(), "no reply before the whole frame");
        let second = feed(&mut cache, &mut buf, &set[cut..], 0);
        assert_eq!(second, vec![0x00], "exactly one OK once complete");
        let got = feed(&mut cache, &mut buf, &get_frame(b"foo"), 0);
        assert_eq!(got, vec![0x02, 0x00, 0x00, 0x00, 0x03, 0x62, 0x61, 0x72]);
    }
}

#[test]
fn scenario_invalid_opcode_closes_connection() {
    let mut cache = ByteCache::new();
    // first connection sends an invalid opcode: closed without a reply
    let mut bad_buf = vec![0x7F];
    match handle_frame(&mut cache, &mut bad_buf, 0) {
        HandlerStep::Close(DecodeError::InvalidOpcode) => {}
        _ => panic!("an invalid opcode must close the connection"),
    }
    // other connections continue to function against the same store
    let mut buf = Vec::new();
    assert_eq!(feed(&mut cache, &mut buf, &set_frame(b"k", b"v", 0), 0), vec![0x00]);
    assert_eq!(
        feed(&mut cache, &mut buf, &get_frame(b"k"), 0),
        vec![0x02, 0x00, 0x00, 0x00, 0x01, 0x76]
    );
}

#[test]
fn test_set_and_get() {
    let mut cache = ByteCache::new();
    let mut buf = Vec::new();

    let key = "integration_test_key";
    let val = "hello_world_value";
    let ttl_sec = 60u64;

    let mut set_cmd = Vec::new();
    set_cmd.push(0x02);
    set_cmd.extend_from_slice(&(key.len() as u32).to_be_bytes());
    set_cmd.extend_from_slice(key.as_bytes());
    set_cmd.extend_from_slice(&(val.len() as u32).to_be_bytes());
    set_cmd.extend_from_slice(val.as_bytes());
    set_cmd.extend_from_slice(&ttl_sec.to_be_bytes());
    let response_buf = feed(&mut cache, &mut buf, &set_cmd, 0);
    assert_eq!(response_buf[0], 0x00, "Expected OK response for SET");

    let mut get_cmd = Vec::new();
    get_cmd.push(0x01);
    get_cmd.extend_from_slice(&(key.len() as u32).to_be_bytes());
    get_cmd.extend_from_slice(key.as_bytes());
    let reply = feed(&mut cache, &mut buf, &get_cmd, 1);
    assert_eq!(reply[0], 0x02, "Expected FOUND response");
    let mut len_buf = [0u8; 4];
    len_buf.copy_from_slice(&reply[1..5]);
    let val_len = u32::from_be_bytes(len_buf) as usize;
    assert_eq!(val_len, val.len());
    let received_val = String::from_utf8(reply[5..5 + val_len].to_vec()).unwrap();
    assert_eq!(received_val, val);
}

#[test]
fn test_get_missing_key() {
    let mut cache = ByteCache::new();
    let mut buf = Vec::new();
    let key = "ghost_key";
    let mut get_cmd = Vec::new();
    get_cmd.push(0x01);
    get_cmd.extend_from_slice(&(key.len() as u32).to_be_bytes());
    get_cmd.extend_from_slice(key.as_bytes());
    let response_buf = feed(&mut cache, &mut buf, &get_cmd, 0);
    assert_eq!(response_buf[0], 0x01);
}

#[test]
fn handle_command_dispatch() {
    let mut cache = ByteCache::new();
    let r = handle_command(&mut cache, Command::Ping, 0);
    assert!(matches!(r, Response::Okay));
    let r = handle_command(
        &mut cache,
        Command::Put { key: b"a".to_vec(), value: b"1".to_vec(), ttl_sec: 0 },
        0,
    );
    assert!(matches!(r, Response::Okay));
    let r = handle_command(&mut cache, Command::Get { key: b"a".to_vec() }, 5);
    match r {
        Response::Found(d) => assert_eq!(d, b"1".to_vec()),
        _ => panic!("expected the stored value"),
    }
    let r = handle_command(&mut cache, Command::Get { key: b"b".to_vec() }, 5);
    assert!(matches!(r, Response::NotFound));
}

#[test]
fn admission_bound_holds() {
    let mut a = Admission::new(2);
    assert!(a.try_acquire());
    assert!(a.try_acquire());
    // at capacity: a third session must wait
    assert!(!a.try_acquire());
    a.release();
    assert!(a.try_acquire());
    assert!(!a.try_acquire());
}

#[test]
fn drain_answers_pipelined_frames_in_order() {
    let mut cache = ByteCache::new();
    // one write carrying three frames: SET, GET, PING
    let mut buf = set_frame(b"k", b"v", 0);
    buf.extend_from_slice(&get_frame(b"k"));
    buf.push(0x03);
    let (replies, err) = drain_frames(&mut cache, &mut buf, 0);
    assert!(err.is_none());
    assert!(buf.is_empty());
    // OK, then FOUND "v", then OK — strictly in command order
    assert_eq!(replies, vec![0x00, 0x02, 0x00, 0x00, 0x00, 0x01, 0x76, 0x00]);
}

#[test]
fn drain_stops_at_decode_error() {
    let mut cache = ByteCache::new();
    // a good PING followed by garbage: the ping is answered, then close
    let mut buf = vec![0x03, 0x7F];
    let (replies, err) = drain_frames(&mut cache, &mut buf, 0);
    assert_eq!(replies, vec![0x00]);
    assert_eq!(err, Some(DecodeError::InvalidOpcode));
}

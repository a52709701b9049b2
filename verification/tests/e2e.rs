use rustcache::binary_codec::{BinaryRequest, BinaryResponse, MemcachedBinaryCodec};
use rustcache::server::TcpServer;

fn request_header_bytes(opcode: u8, key_len: u16, extras_len: u8, body_len: u32, opaque: u32, cas: u64) -> Vec<u8> {
    let mut v = vec![0x80u8, opcode];
    v.extend_from_slice(&key_len.to_be_bytes());
    v.push(extras_len);
    v.push(0);
    v.extend_from_slice(&0u16.to_be_bytes());
    v.extend_from_slice(&body_len.to_be_bytes());
    v.extend_from_slice(&opaque.to_be_bytes());
    v.extend_from_slice(&cas.to_be_bytes());
    v
}

fn set_frame(key: &[u8], value: &[u8], flags: u32, expiration: u32, opaque: u32, cas: u64) -> Vec<u8> {
    let body_len = (8 + key.len() + value.len()) as u32;
    let mut v = request_header_bytes(0x01, key.len() as u16, 8, body_len, opaque, cas);
    v.extend_from_slice(&flags.to_be_bytes());
    v.extend_from_slice(&expiration.to_be_bytes());
    v.extend_from_slice(key);
    v.extend_from_slice(value);
    v
}

fn get_frame(key: &[u8], opaque: u32) -> Vec<u8> {
    let mut v = request_header_bytes(0x00, key.len() as u16, 0, key.len() as u32, opaque, 0);
    v.extend_from_slice(key);
    v
}

#[test]
fn set_then_get_end_to_end() {
    let now: u64 = 1000;
    let mut server = TcpServer::new();
    let mut codec = MemcachedBinaryCodec::new();

    // The client stores "bar" under "foo" with flags 0 and no expiration.
    let mut inbound = set_frame(b"foo", b"bar", 0, 0, 21, 0);
    let request = codec.decode(&mut inbound).unwrap().unwrap();
    assert!(server.handler.has_token_headroom());
    let response = server.handler.handle_request(request, now).unwrap();

    let set_cas = match &response {
        BinaryResponse::SetOp(r) => {
            assert_eq!(r.header.status, 0);
            assert_eq!(r.header.opaque, 21);
            assert_ne!(r.header.cas, 0);
            r.header.cas
        }
        _ => panic!("expected a set response"),
    };

    let mut wire: Vec<u8> = Vec::new();
    codec.encode(response, &mut wire);
    assert_eq!(wire.len(), 24);
    assert_eq!(wire[0], 0x81);
    assert_eq!(&wire[6..8], &[0, 0]);
    assert_eq!(&wire[16..24], &set_cas.to_be_bytes());

    // The client then reads "foo" back on the same connection.
    let mut inbound = get_frame(b"foo", 22);
    let request = codec.decode(&mut inbound).unwrap().unwrap();
    assert!(server.handler.has_token_headroom());
    let response = server.handler.handle_request(request, now).unwrap();

    match &response {
        BinaryResponse::Get(r) => {
            assert_eq!(r.header.status, 0);
            assert_eq!(r.header.opaque, 22);
            assert_eq!(r.header.cas, set_cas);
            assert_eq!(r.flags, 0);
            assert_eq!(r.value, b"bar".to_vec());
        }
        _ => panic!("expected a get response"),
    }

    let mut wire: Vec<u8> = Vec::new();
    codec.encode(response, &mut wire);
    assert_eq!(wire.len(), 24 + 4 + 3);
    assert_eq!(wire[0], 0x81);
    assert_eq!(&wire[8..12], &7u32.to_be_bytes());
    assert_eq!(&wire[16..24], &set_cas.to_be_bytes());
    assert_eq!(&wire[24..28], &0u32.to_be_bytes());
    assert_eq!(&wire[28..], b"bar");
}

#[test]
fn get_miss_sends_no_response_and_the_connection_stays_ready() {
    let now: u64 = 1000;
    let mut server = TcpServer::new();
    let mut codec = MemcachedBinaryCodec::new();

    // A get against an empty table: no response frame at all.
    let mut inbound = get_frame(b"missing", 5);
    let request = codec.decode(&mut inbound).unwrap().unwrap();
    assert!(server.handler.has_token_headroom());
    let response = server.handler.handle_request(request, now);
    assert!(response.is_none());

    // The connection is still ready: the next frame decodes and is served.
    let mut inbound = set_frame(b"foo", b"bar", 0, 0, 6, 0);
    let request = codec.decode(&mut inbound).unwrap().unwrap();
    let response = server.handler.handle_request(request, now);
    assert!(matches!(response, Some(BinaryResponse::SetOp(_))));
}

#[test]
fn add_and_replace_are_routed_end_to_end() {
    let now: u64 = 50;
    let mut server = TcpServer::new();
    let mut codec = MemcachedBinaryCodec::new();

    // Replace before any store: key not found on the wire.
    let mut frame = set_frame(b"k", b"v", 0, 0, 1, 0);
    frame[1] = 0x03;
    let request = codec.decode(&mut frame).unwrap().unwrap();
    assert!(matches!(request, BinaryRequest::Replace(_)));
    let response = server.handler.handle_request(request, now).unwrap();
    match &response {
        BinaryResponse::Replace(r) => assert_eq!(r.header.status, 0x0001),
        _ => panic!("expected a replace response"),
    }

    // Add stores, a second add reports the existing key.
    let mut frame = set_frame(b"k", b"v", 0, 0, 2, 0);
    frame[1] = 0x02;
    let request = codec.decode(&mut frame).unwrap().unwrap();
    let response = server.handler.handle_request(request, now).unwrap();
    match &response {
        BinaryResponse::Add(r) => assert_eq!(r.header.status, 0),
        _ => panic!("expected an add response"),
    }

    let mut frame = set_frame(b"k", b"w", 0, 0, 3, 0);
    frame[1] = 0x02;
    let request = codec.decode(&mut frame).unwrap().unwrap();
    let response = server.handler.handle_request(request, now).unwrap();
    match &response {
        BinaryResponse::Add(r) => assert_eq!(r.header.status, 0x0002),
        _ => panic!("expected an add response"),
    }
}

#[test]
fn expired_set_is_a_get_miss_end_to_end() {
    let now: u64 = 1000;
    let mut server = TcpServer::new();
    let mut codec = MemcachedBinaryCodec::new();

    // Stored with an expiration already in the past.
    let mut inbound = set_frame(b"old", b"v", 0, (now - 1) as u32, 1, 0);
    let request = codec.decode(&mut inbound).unwrap().unwrap();
    let response = server.handler.handle_request(request, now);
    assert!(matches!(response, Some(BinaryResponse::SetOp(_))));

    let mut inbound = get_frame(b"old", 2);
    let request = codec.decode(&mut inbound).unwrap().unwrap();
    let response = server.handler.handle_request(request, now);
    assert!(response.is_none());
}

#[test]
fn process_bytes_serves_a_pipelined_connection() {
    let now: u64 = 10;
    let mut server = TcpServer::new();
    let mut codec = MemcachedBinaryCodec::new();

    // A set and a get arrive in one read; both responses come back in order.
    let mut inbound = set_frame(b"foo", b"bar", 9, 0, 1, 0);
    inbound.extend_from_slice(&get_frame(b"foo", 2));
    let (out, faults) = server.process_bytes(&mut codec, &mut inbound, now);
    assert!(faults.is_empty());
    assert!(inbound.is_empty());
    assert_eq!(out.len(), 24 + 24 + 4 + 3);
    assert_eq!(out[0], 0x81);
    assert_eq!(out[1], 0x01);
    assert_eq!(out[24], 0x81);
    assert_eq!(out[25], 0x00);
    assert_eq!(&out[24 + 24..24 + 28], &9u32.to_be_bytes());
    assert_eq!(&out[24 + 28..], b"bar");
}

#[test]
fn process_bytes_reports_bad_frames_and_keeps_serving() {
    let now: u64 = 10;
    let mut server = TcpServer::new();
    let mut codec = MemcachedBinaryCodec::new();

    let mut inbound = request_header_bytes(0x7f, 0, 0, 0, 0, 0);
    inbound.extend_from_slice(&set_frame(b"k", b"v", 0, 0, 1, 0));
    let (out, faults) = server.process_bytes(&mut codec, &mut inbound, now);
    assert_eq!(faults.len(), 1);
    assert_eq!(out.len(), 24);
    assert_eq!(out[0], 0x81);

    // A half-delivered frame stays buffered until the rest arrives.
    let tail = get_frame(b"k", 2);
    let (head_part, tail_part) = tail.split_at(10);
    let mut inbound = head_part.to_vec();
    let (out, faults) = server.process_bytes(&mut codec, &mut inbound, now);
    assert!(out.is_empty());
    assert!(faults.is_empty());
    inbound.extend_from_slice(tail_part);
    let (out, faults) = server.process_bytes(&mut codec, &mut inbound, now);
    assert!(faults.is_empty());
    assert_eq!(&out[28..], b"v");
}

use rustcache::binary::ResponseHeader;
use rustcache::binary::GetResponse;
use rustcache::binary_codec::{BinaryRequest, BinaryResponse, CodecError, MemcachedBinaryCodec};

fn request_header_bytes(opcode: u8, key_len: u16, extras_len: u8, body_len: u32, opaque: u32, cas: u64) -> Vec<u8> {
    let mut v = vec![0x80u8, opcode];
    v.extend_from_slice(&key_len.to_be_bytes());
    v.push(extras_len);
    v.push(0);
    v.extend_from_slice(&0u16.to_be_bytes());
    v.extend_from_slice(&body_len.to_be_bytes());
    v.extend_from_slice(&opaque.to_be_bytes());
    v.extend_from_slice(&cas.to_be_bytes());
    v
}

fn set_frame(key: &[u8], value: &[u8], flags: u32, expiration: u32, opaque: u32, cas: u64) -> Vec<u8> {
    let body_len = (8 + key.len() + value.len()) as u32;
    let mut v = request_header_bytes(0x01, key.len() as u16, 8, body_len, opaque, cas);
    v.extend_from_slice(&flags.to_be_bytes());
    v.extend_from_slice(&expiration.to_be_bytes());
    v.extend_from_slice(key);
    v.extend_from_slice(value);
    v
}

fn get_frame(key: &[u8], opaque: u32) -> Vec<u8> {
    let mut v = request_header_bytes(0x00, key.len() as u16, 0, key.len() as u32, opaque, 0);
    v.extend_from_slice(key);
    v
}

fn set_fields(req: BinaryRequest) -> (u32, u32, Vec<u8>, Vec<u8>, u32, u64) {
    match req {
        BinaryRequest::SetOp(r) => (r.flags, r.expiration, r.key, r.value, r.header.opaque, r.header.cas),
        _ => panic!("expected a set request"),
    }
}

#[test]
fn test_encode_decode() {
    let mut codec = MemcachedBinaryCodec::new();
    let mut buf = set_frame(b"foo", b"bar", 0xDEAD, 42, 7, 9);
    let req = codec.decode(&mut buf).unwrap().unwrap();
    assert!(buf.is_empty());
    let (flags, expiration, key, value, opaque, cas) = set_fields(req);
    assert_eq!(flags, 0xDEAD);
    assert_eq!(expiration, 42);
    assert_eq!(key, b"foo".to_vec());
    assert_eq!(value, b"bar".to_vec());
    assert_eq!(opaque, 7);
    assert_eq!(cas, 9);

    let response = BinaryResponse::Get(GetResponse {
        header: ResponseHeader {
            magic: 0x81,
            opcode: 0x00,
            key_length: 0,
            extras_length: 4,
            data_type: 0,
            status: 0,
            body_length: 7,
            opaque: 7,
            cas: 3,
        },
        flags: 0x0102_0304,
        key: Vec::new(),
        value: b"bar".to_vec(),
    });
    let mut out: Vec<u8> = Vec::new();
    codec.encode(response, &mut out);
    assert_eq!(out.len(), 24 + 7);
    assert_eq!(out[0], 0x81);
    assert_eq!(out[1], 0x00);
    assert_eq!(&out[2..4], &[0, 0]);
    assert_eq!(out[4], 4);
    assert_eq!(&out[6..8], &[0, 0]);
    assert_eq!(&out[8..12], &7u32.to_be_bytes());
    assert_eq!(&out[12..16], &7u32.to_be_bytes());
    assert_eq!(&out[16..24], &3u64.to_be_bytes());
    assert_eq!(&out[24..28], &[1, 2, 3, 4]);
    assert_eq!(&out[28..], b"bar");
}

#[test]
fn fragmentation_matches_whole_delivery() {
    let frame = set_frame(b"frag", b"payload", 5, 0, 11, 0);

    let mut whole_codec = MemcachedBinaryCodec::new();
    let mut whole_buf = frame.clone();
    let whole = set_fields(whole_codec.decode(&mut whole_buf).unwrap().unwrap());

    for i in 0..frame.len() {
        let mut codec = MemcachedBinaryCodec::new();
        let mut buf = frame[..i].to_vec();
        let first = codec.decode(&mut buf);
        assert!(matches!(first, Ok(None)), "split at {} yielded a request too early", i);
        buf.extend_from_slice(&frame[i..]);
        let second = set_fields(codec.decode(&mut buf).unwrap().unwrap());
        assert_eq!(second, whole, "split at {} parsed differently", i);
        assert!(buf.is_empty());
    }
}

#[test]
fn byte_by_byte_delivery_parses_the_frame() {
    let frame = get_frame(b"akey", 3);
    let mut codec = MemcachedBinaryCodec::new();
    let mut buf: Vec<u8> = Vec::new();
    let mut produced = None;
    for (i, byte) in frame.iter().enumerate() {
        buf.push(*byte);
        match codec.decode(&mut buf) {
            Ok(None) => assert!(i + 1 < frame.len()),
            Ok(Some(req)) => {
                assert_eq!(i + 1, frame.len());
                produced = Some(req);
            }
            Err(e) => panic!("unexpected decode fault {:?}", e),
        }
    }
    match produced.unwrap() {
        BinaryRequest::Get(r) => assert_eq!(r.key, b"akey".to_vec()),
        _ => panic!("expected a get request"),
    }
}

#[test]
fn unknown_opcode_is_reported_and_the_stream_resyncs() {
    let mut bad = request_header_bytes(0x7f, 0, 0, 3, 0, 0);
    bad.extend_from_slice(&b"jnk"[..]);
    let mut buf = bad;
    buf.extend_from_slice(&get_frame(b"next", 0));

    let mut codec = MemcachedBinaryCodec::new();
    assert!(matches!(codec.decode(&mut buf), Err(CodecError::UnknownOpcode)));
    match codec.decode(&mut buf).unwrap().unwrap() {
        BinaryRequest::Get(r) => assert_eq!(r.key, b"next".to_vec()),
        _ => panic!("expected the following get request"),
    }
    assert!(buf.is_empty());
}

#[test]
fn inconsistent_set_lengths_are_malformed() {
    // extras length 0 contradicts the set layout; the frame is consumed.
    let mut buf = request_header_bytes(0x01, 3, 0, 3, 0, 0);
    buf.extend_from_slice(b"key");
    buf.extend_from_slice(&get_frame(b"ok", 0));

    let mut codec = MemcachedBinaryCodec::new();
    assert!(matches!(codec.decode(&mut buf), Err(CodecError::MalformedFrame)));
    match codec.decode(&mut buf).unwrap().unwrap() {
        BinaryRequest::Get(r) => assert_eq!(r.key, b"ok".to_vec()),
        _ => panic!("expected the following get request"),
    }
}

#[test]
fn wrong_magic_is_malformed() {
    let mut frame = get_frame(b"key", 0);
    frame[0] = 0x55;
    let mut codec = MemcachedBinaryCodec::new();
    assert!(matches!(codec.decode(&mut frame), Err(CodecError::MalformedFrame)));
}

#[test]
fn frames_without_payload_contract_are_skipped() {
    // A noop frame, then a get frame: one decode call skips the noop
    // silently and yields the get.
    let mut buf = request_header_bytes(0x0a, 0, 0, 0, 0, 0);
    buf.extend_from_slice(&get_frame(b"after", 0));
    let mut codec = MemcachedBinaryCodec::new();
    match codec.decode(&mut buf).unwrap().unwrap() {
        BinaryRequest::Get(r) => assert_eq!(r.key, b"after".to_vec()),
        _ => panic!("expected the get request after the noop"),
    }
}

#[test]
fn get_req_length_is_the_declared_body_length() {
    let frame = set_frame(b"ab", b"cdef", 0, 0, 0, 0);
    let mut codec = MemcachedBinaryCodec::new();
    let mut buf = frame;
    codec.parse_header(&mut buf);
    assert_eq!(codec.get_req_length(), 8 + 2 + 4);
}

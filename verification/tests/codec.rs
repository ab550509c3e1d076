use tcp_tunnel::codec::DecodeStep;
use tcp_tunnel::{xor, EncReader, EncWriter};

fn xor_bytes(data: &[u8], key: &[u8]) -> Vec<u8> {
    let mut out = Vec::new();
    xor(data, key, &mut out);
    out
}

#[test]
fn xor_applies_repeating_key() {
    let out = xor_bytes(&[0x10, 0x20, 0x30], &[0x01, 0x02]);
    assert_eq!(out, vec![0x11, 0x22, 0x31]);
}

#[test]
fn xor_twice_is_identity() {
    let data = b"some payload bytes".to_vec();
    let key = b"abc".to_vec();
    let once = xor_bytes(&data, &key);
    let twice = xor_bytes(&once, &key);
    assert_eq!(twice, data);
}

#[test]
fn encode_frame_wire_format() {
    let w = EncWriter::new(vec![0x01]);
    let wire = w.encode_frame(b"ab");
    assert_eq!(wire, vec![0, 0, 0, 2, b'a' ^ 0x01, b'b' ^ 0x01]);
}

#[test]
fn encode_decode_round_trip() {
    let key = b"abc".to_vec();
    let w = EncWriter::new(key.clone());
    let wire = w.encode_frame(b"hello");
    let mut r = EncReader::new(key);
    r.push_bytes(&wire);
    let mut out = Vec::new();
    assert_eq!(r.try_next(&mut out), DecodeStep::Frame);
    assert_eq!(out, b"hello".to_vec());
    assert_eq!(r.try_next(&mut out), DecodeStep::NeedMore);
}

#[test]
fn round_trip_single_byte_payload() {
    let key = b"k".to_vec();
    let w = EncWriter::new(key.clone());
    let wire = w.encode_frame(&[0xff]);
    let mut r = EncReader::new(key);
    r.push_bytes(&wire);
    let mut out = Vec::new();
    assert_eq!(r.try_next(&mut out), DecodeStep::Frame);
    assert_eq!(out, vec![0xff]);
}

#[test]
fn chunked_stream_yields_frames_in_order() {
    let key = b"secret".to_vec();
    let w = EncWriter::new(key.clone());
    let payloads: Vec<Vec<u8>> = vec![
        b"first frame".to_vec(),
        b"x".to_vec(),
        vec![0, 0, 0, 0, 0],
        b"the last one, somewhat longer than the others".to_vec(),
    ];
    let mut wire = Vec::new();
    for p in &payloads {
        wire.extend_from_slice(&w.encode_frame(p));
    }
    // Feed the concatenated stream one byte at a time and decode whenever
    // possible: the original payloads must come back, in order.
    let mut r = EncReader::new(key);
    let mut seen: Vec<Vec<u8>> = Vec::new();
    for b in &wire {
        r.push_bytes(&[*b]);
        let mut out = Vec::new();
        while r.try_next(&mut out) == DecodeStep::Frame {
            seen.push(out.clone());
        }
    }
    assert_eq!(seen, payloads);
}

#[test]
fn chunked_stream_in_odd_chunks() {
    let key = b"kk".to_vec();
    let w = EncWriter::new(key.clone());
    let payloads: Vec<Vec<u8>> = vec![b"alpha".to_vec(), b"beta".to_vec(), b"gamma".to_vec()];
    let mut wire = Vec::new();
    for p in &payloads {
        wire.extend_from_slice(&w.encode_frame(p));
    }
    let mut r = EncReader::new(key);
    let mut seen: Vec<Vec<u8>> = Vec::new();
    for chunk in wire.chunks(7) {
        r.push_bytes(chunk);
        let mut out = Vec::new();
        while r.try_next(&mut out) == DecodeStep::Frame {
            seen.push(out.clone());
        }
    }
    assert_eq!(seen, payloads);
}

#[test]
fn zero_length_prefix_is_malformed() {
    let mut r = EncReader::new(b"abc".to_vec());
    r.push_bytes(&[0, 0, 0, 0]);
    let mut out = Vec::new();
    assert_eq!(r.try_next(&mut out), DecodeStep::Malformed);
}

#[test]
fn partial_frame_needs_more() {
    let key = b"abc".to_vec();
    let w = EncWriter::new(key.clone());
    let wire = w.encode_frame(b"hello");
    let mut r = EncReader::new(key);
    r.push_bytes(&wire[..wire.len() - 1]);
    let mut out = Vec::new();
    assert_eq!(r.try_next(&mut out), DecodeStep::NeedMore);
    r.push_bytes(&wire[wire.len() - 1..]);
    assert_eq!(r.try_next(&mut out), DecodeStep::Frame);
    assert_eq!(out, b"hello".to_vec());
}

#[test]
fn interleaved_whole_frames_decode_intact() {
    // Two writers' frames interleaved whole on one stream: the decoder
    // yields exactly the interleaved payload sequence, nothing corrupted.
    let key = b"q".to_vec();
    let w = EncWriter::new(key.clone());
    let a = vec![b"a1".to_vec(), b"a2".to_vec()];
    let b = vec![b"b1".to_vec(), b"b2".to_vec()];
    let order = vec![&a[0], &b[0], &b[1], &a[1]];
    let mut wire = Vec::new();
    for p in &order {
        wire.extend_from_slice(&w.encode_frame(p));
    }
    let mut r = EncReader::new(key);
    r.push_bytes(&wire);
    let mut seen: Vec<Vec<u8>> = Vec::new();
    let mut out = Vec::new();
    while r.try_next(&mut out) == DecodeStep::Frame {
        seen.push(out.clone());
    }
    let expect: Vec<Vec<u8>> = order.into_iter().cloned().collect();
    assert_eq!(seen, expect);
}

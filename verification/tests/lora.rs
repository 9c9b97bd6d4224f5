use midair::lora::{decode_position, encode_position, Frame, FRAME_MAX, PAYLOAD_MAX};
use midair::position::POSITION_PACKET_LEN;


/// An encoded position packet: 48.1173 N, 122.676 W, 123.4 m, a fix with 7
/// satellites at one second past midnight.
fn sample() -> [u8; POSITION_PACKET_LEN] {
    let mut p = [0u8; POSITION_PACKET_LEN];
    p[0..4].copy_from_slice(&481_173_000i32.to_le_bytes());
    p[4..8].copy_from_slice(&(-1_226_760_000i32).to_le_bytes());
    p[8..10].copy_from_slice(&1234i16.to_le_bytes());
    p[14] = 1;
    p[15] = 7;
    p[16..20].copy_from_slice(&1000u32.to_le_bytes());
    p
}

#[test]
fn position_roundtrip() {
    let p = sample();
    let enc = encode_position(&p);
    assert_eq!(enc.len(), 21);
    assert_eq!(decode_position(&enc), Some(p));
    assert_eq!(decode_position(b"hello"), None);
    // A tagged but truncated payload is rejected rather than decoded
    // from whatever follows it in the buffer.
    assert_eq!(decode_position(&enc[..10]), None);
}

#[test]
fn lora_frame_roundtrip() {
    let payload = encode_position(&sample());
    let frame = Frame {
        src: 3,
        id: 42,
        hops_left: 1,
        payload: &payload,
    };
    let mut buf = [0u8; FRAME_MAX];
    let n = frame.encode(&mut buf).unwrap();
    // 3 header + 21 payload; no padding to a fixed size.
    assert_eq!(n, 24);
    assert_eq!(Frame::decode(&buf[..n]), Some(frame));
}

#[test]
fn frame_rejects_malformed() {
    let mut buf = [0u8; FRAME_MAX];
    // Header only, no payload.
    assert_eq!(Frame::decode(&[1, 2, 3]), None);
    assert_eq!(Frame::decode(&[1, 2]), None);
    assert_eq!(Frame::decode(&[]), None);
    // Source address 0 is not assignable.
    assert_eq!(Frame::decode(&[0, 1, 1, 0x50]), None);
    // Empty and oversized payloads do not encode.
    let empty = Frame { src: 1, id: 0, hops_left: 0, payload: &[] };
    assert_eq!(empty.encode(&mut buf), None);
    let big = [0u8; PAYLOAD_MAX + 1];
    let over = Frame { src: 1, id: 0, hops_left: 0, payload: &big };
    assert_eq!(over.encode(&mut buf), None);
    // Exactly full fits.
    let full = Frame { src: 1, id: 0, hops_left: 0, payload: &big[..PAYLOAD_MAX] };
    assert_eq!(full.encode(&mut buf), Some(FRAME_MAX));
}

#[test]
fn hops_survive_a_repeat() {
    let payload = encode_position(&sample());
    let mut buf = [0u8; FRAME_MAX];
    let n = Frame { src: 7, id: 9, hops_left: 2, payload: &payload }
        .encode(&mut buf)
        .unwrap();

    // What a repeater does: decode, decrement, re-encode. The origin
    // address and id must survive so the next hop still dedups on them.
    let recv = Frame::decode(&buf[..n]).unwrap();
    let mut out = [0u8; FRAME_MAX];
    let n2 = Frame { hops_left: recv.hops_left - 1, ..recv }
        .encode(&mut out)
        .unwrap();
    let hop2 = Frame::decode(&out[..n2]).unwrap();
    assert_eq!((hop2.src, hop2.id, hop2.hops_left), (7, 9, 1));
    assert_eq!(decode_position(hop2.payload), Some(sample()));
}

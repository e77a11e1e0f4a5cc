//! The binary envelope codec and the 4-byte framing.

use castcore::envelope::{
    decode_envelope, encode_envelope, frame, frame_length, read_varint, unframe, write_varint,
    Envelope, PROTOCOL_VERSION,
};

fn sample_envelope() -> Envelope {
    Envelope {
        protocol_version: PROTOCOL_VERSION,
        source_id: "sender-0".to_string(),
        destination_id: "receiver-0".to_string(),
        namespace: "urn:x-cast:com.google.cast.tp.heartbeat".to_string(),
        payload: "{\"type\":\"PING\"}".to_string(),
    }
}

#[test]
fn varint_one_byte() {
    let mut out: Vec<u8> = Vec::new();
    write_varint(&mut out, 7);
    assert_eq!(out, vec![7u8]);
    assert_eq!(read_varint(&out, 0), Some((7u64, 1usize)));
}

#[test]
fn varint_multi_byte() {
    let mut out: Vec<u8> = Vec::new();
    write_varint(&mut out, 150);
    assert_eq!(out, vec![0x96u8, 0x01]);
    assert_eq!(read_varint(&out, 0), Some((150u64, 2usize)));
}

#[test]
fn varint_truncated_input() {
    assert_eq!(read_varint(&[0x96u8], 0), None);
}

#[test]
fn envelope_roundtrip() {
    let env = sample_envelope();
    let bytes = encode_envelope(&env);
    let back = decode_envelope(&bytes).expect("decode");
    assert_eq!(back.protocol_version, env.protocol_version);
    assert_eq!(back.source_id, env.source_id);
    assert_eq!(back.destination_id, env.destination_id);
    assert_eq!(back.namespace, env.namespace);
    assert_eq!(back.payload, env.payload);
}

#[test]
fn envelope_roundtrip_empty_fields() {
    let env = Envelope {
        protocol_version: 0,
        source_id: String::new(),
        destination_id: String::new(),
        namespace: String::new(),
        payload: String::new(),
    };
    let bytes = encode_envelope(&env);
    let back = decode_envelope(&bytes).expect("decode");
    assert_eq!(back.source_id, "");
    assert_eq!(back.payload, "");
}

#[test]
fn envelope_roundtrip_large_payload() {
    let env = Envelope {
        protocol_version: 0,
        source_id: "sender-0".to_string(),
        destination_id: "receiver-0".to_string(),
        namespace: "urn:x-cast:custom".to_string(),
        payload: "x".repeat(100_000),
    };
    let bytes = encode_envelope(&env);
    let back = decode_envelope(&bytes).expect("decode");
    assert_eq!(back.payload.len(), 100_000);
}

#[test]
fn decode_skips_unknown_fields() {
    let env = sample_envelope();
    let mut bytes = encode_envelope(&env);
    // Append an unknown varint field (field 9, wire type 0) and an unknown
    // length-delimited field (field 10, wire type 2).
    bytes.extend_from_slice(&[0x48, 0x2a]);
    bytes.extend_from_slice(&[0x52, 0x03, 1, 2, 3]);
    let back = decode_envelope(&bytes).expect("decode");
    assert_eq!(back.namespace, env.namespace);
}

#[test]
fn decode_rejects_truncated_field() {
    let env = sample_envelope();
    let mut bytes = encode_envelope(&env);
    bytes.pop();
    assert!(decode_envelope(&bytes).is_none());
}

#[test]
fn decode_rejects_invalid_utf8() {
    // Field 2 (source id) with two bytes that are not valid UTF-8.
    let bytes = vec![0x12u8, 0x02, 0xff, 0xfe];
    assert!(decode_envelope(&bytes).is_none());
}

#[test]
fn frame_prefixes_big_endian_length() {
    let body = vec![1u8, 2, 3];
    let framed = frame(&body).expect("frame");
    assert_eq!(framed, vec![0, 0, 0, 3, 1, 2, 3]);
    assert_eq!(frame_length(0, 0, 0, 3), 3);
    assert_eq!(frame_length(0, 1, 0, 0), 65536);
}

#[test]
fn frame_unframe_roundtrip() {
    let env = sample_envelope();
    let bytes = encode_envelope(&env);
    let framed = frame(&bytes).expect("frame");
    let (body, used) = unframe(&framed).expect("unframe");
    assert_eq!(used, framed.len());
    assert_eq!(body, bytes);
    let back = decode_envelope(&body).expect("decode");
    assert_eq!(back.namespace, env.namespace);
}

#[test]
fn unframe_needs_whole_body() {
    let framed = vec![0u8, 0, 0, 5, 1, 2];
    assert!(unframe(&framed).is_none());
}

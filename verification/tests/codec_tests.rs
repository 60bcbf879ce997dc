use downlink::codec::registration_signing_bytes;
use prost::encoding::{encode_key, encode_varint, WireType};

fn prost_reference(region: u32, timestamp: u64, signer: &[u8]) -> Vec<u8> {
    let mut buf: Vec<u8> = Vec::new();
    if region != 0 {
        encode_key(1, WireType::Varint, &mut buf);
        encode_varint(region as u64, &mut buf);
    }
    if timestamp != 0 {
        encode_key(2, WireType::Varint, &mut buf);
        encode_varint(timestamp, &mut buf);
    }
    if !signer.is_empty() {
        encode_key(3, WireType::LengthDelimited, &mut buf);
        encode_varint(signer.len() as u64, &mut buf);
        buf.extend_from_slice(signer);
    }
    buf
}

#[test]
fn encoding_matches_the_protobuf_reference() {
    let signer: Vec<u8> = (0u8..33).collect();
    let cases: [(u32, u64); 5] = [
        (1, 1_700_000_000_000),
        (0, 1),
        (7, 0),
        (u32::MAX, u64::MAX),
        (0x80, 0x4000),
    ];
    for (region, timestamp) in cases {
        assert_eq!(
            registration_signing_bytes(region, timestamp, &signer),
            prost_reference(region, timestamp, &signer),
            "mismatch for region {region}, timestamp {timestamp}"
        );
    }
}

#[test]
fn encoding_has_exact_known_bytes() {
    let signer = vec![0xAA, 0xBB];
    let bytes = registration_signing_bytes(1, 300, &signer);
    assert_eq!(
        bytes,
        vec![0x08, 0x01, 0x10, 0xAC, 0x02, 0x1A, 0x02, 0xAA, 0xBB]
    );
}

#[test]
fn default_fields_are_omitted() {
    let empty: Vec<u8> = Vec::new();
    assert_eq!(registration_signing_bytes(0, 0, &empty), Vec::<u8>::new());
    assert_eq!(registration_signing_bytes(0, 5, &empty), vec![0x10, 0x05]);
}

#[test]
fn multi_byte_varints_are_little_endian_base_128() {
    let empty: Vec<u8> = Vec::new();
    // 0x4000 = 128 * 128, so three varint bytes: 0x80, 0x80, 0x01.
    assert_eq!(
        registration_signing_bytes(0, 0x4000, &empty),
        vec![0x10, 0x80, 0x80, 0x01]
    );
}

use rvault::error::{FormatError, SizeError};
use rvault::format::{decode, encode, VERSION};

fn sample() -> Vec<u8> {
    vec![
        82, 86, 76, 84, 1, 0, 2, 0, 1, 2, 1, 0, 3, 3, 0, 0, 0, 4, 5, 6,
    ]
}

#[test]
fn encode_lays_out_fields_little_endian() {
    let bytes = encode(&[1, 2], &[3], &[4, 5, 6]).unwrap();
    assert_eq!(bytes, sample());
}

#[test]
fn decode_reads_back_encoded_fields() {
    let f = decode(&sample()).unwrap();
    assert_eq!(f.version, VERSION);
    assert_eq!(f.salt, vec![1, 2]);
    assert_eq!(f.nonce, vec![3]);
    assert_eq!(f.ciphertext, vec![4, 5, 6]);
}

#[test]
fn decode_encode_round_trip_with_lengths_over_one_byte() {
    let salt: Vec<u8> = (0..300u32).map(|i| (i % 251) as u8).collect();
    let nonce: Vec<u8> = vec![9; 24];
    let ct: Vec<u8> = (0..70000u32).map(|i| (i % 253) as u8).collect();
    let bytes = encode(&salt, &nonce, &ct).unwrap();
    assert_eq!(bytes.len(), 4 + 2 + 2 + 300 + 2 + 24 + 4 + 70000);
    let f = decode(&bytes).unwrap();
    assert_eq!(f.salt, salt);
    assert_eq!(f.nonce, nonce);
    assert_eq!(f.ciphertext, ct);
}

#[test]
fn decode_ignores_trailing_bytes() {
    let mut bytes = sample();
    bytes.extend_from_slice(&[7, 7, 7]);
    let f = decode(&bytes).unwrap();
    assert_eq!(f.ciphertext, vec![4, 5, 6]);
}

#[test]
fn decode_empty_is_truncated() {
    assert_eq!(decode(&[]).unwrap_err(), FormatError::Truncated);
}

#[test]
fn decode_rejects_bad_magic() {
    let mut bytes = sample();
    bytes[0] = b'X';
    assert_eq!(decode(&bytes).unwrap_err(), FormatError::BadMagic);
}

#[test]
fn decode_rejects_unsupported_version() {
    let mut bytes = sample();
    bytes[4] = 2;
    assert_eq!(decode(&bytes).unwrap_err(), FormatError::UnsupportedVersion(2));
}

#[test]
fn decode_rejects_version_in_high_byte() {
    let mut bytes = sample();
    bytes[5] = 1;
    assert_eq!(decode(&bytes).unwrap_err(), FormatError::UnsupportedVersion(257));
}

#[test]
fn decode_rejects_every_truncation() {
    let bytes = sample();
    for n in 0..bytes.len() {
        assert_eq!(decode(&bytes[..n]).unwrap_err(), FormatError::Truncated, "length {}", n);
    }
}

#[test]
fn decode_rejects_declared_length_past_end() {
    let mut bytes = sample();
    // ciphertext length field claims 0xFFFFFFFF bytes
    let at = 4 + 2 + 2 + 2 + 2 + 1;
    for b in &mut bytes[at..at + 4] {
        *b = 0xFF;
    }
    assert_eq!(decode(&bytes).unwrap_err(), FormatError::Truncated);
    let mut bytes = sample();
    bytes[6] = 0xFF;
    bytes[7] = 0xFF;
    assert_eq!(decode(&bytes).unwrap_err(), FormatError::Truncated);
}

#[test]
fn encode_rejects_oversized_salt() {
    let salt = vec![0u8; 65536];
    assert_eq!(encode(&salt, &[1], &[2]).unwrap_err(), SizeError::Salt);
}

#[test]
fn encode_rejects_oversized_nonce() {
    let nonce = vec![0u8; 65536];
    assert_eq!(encode(&[1], &nonce, &[2]).unwrap_err(), SizeError::Nonce);
}

#[test]
fn encode_accepts_largest_short_fields() {
    let big = vec![5u8; 65535];
    let bytes = encode(&big, &big, &[]).unwrap();
    let f = decode(&bytes).unwrap();
    assert_eq!(f.salt.len(), 65535);
    assert_eq!(f.nonce.len(), 65535);
    assert!(f.ciphertext.is_empty());
}

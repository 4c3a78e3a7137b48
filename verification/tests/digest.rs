use chksum_sha1::{Digest, SHA1};

const EMPTY_BYTES: [u8; 20] = [
    0xDA, 0x39, 0xA3, 0xEE, 0x5E, 0x6B, 0x4B, 0x0D, 0x32, 0x55, 0xBF, 0xEF, 0x95, 0x60, 0x18,
    0x90, 0xAF, 0xD8, 0x07, 0x09,
];

#[test]
fn new_digest_to_hex_lowercase() {
    let digest = Digest::new(EMPTY_BYTES);
    assert_eq!(
        digest.to_hex_lowercase(),
        "da39a3ee5e6b4b0d3255bfef95601890afd80709"
    );
}

#[test]
fn new_digest_to_hex_uppercase() {
    let digest = Digest::new(EMPTY_BYTES);
    assert_eq!(
        digest.to_hex_uppercase(),
        "DA39A3EE5E6B4B0D3255BFEF95601890AFD80709"
    );
}

#[test]
fn hex_renderings_differ_only_in_case() {
    let digest = SHA1::hash(b"example data");
    assert_eq!(
        digest.to_hex_uppercase(),
        digest.to_hex_lowercase().to_uppercase()
    );
    assert_eq!(
        digest.to_hex_lowercase(),
        digest.to_hex_uppercase().to_lowercase()
    );
}

#[test]
fn as_bytes_returns_contents() {
    let digest = Digest::new(EMPTY_BYTES);
    assert_eq!(digest.as_bytes(), &EMPTY_BYTES[..]);
}

#[test]
fn into_inner_round_trip() {
    let digest = Digest::new(EMPTY_BYTES);
    assert_eq!(digest.into_inner(), EMPTY_BYTES);
}

#[test]
fn digest_from_array() {
    let digest = Digest::from(EMPTY_BYTES);
    assert_eq!(digest, Digest::new(EMPTY_BYTES));
    assert_eq!(digest.into_inner(), EMPTY_BYTES);
}

#[test]
fn hex_covers_every_nibble() {
    let digest = Digest::new([
        0x01, 0x23, 0x45, 0x67, 0x89, 0xAB, 0xCD, 0xEF, 0xFE, 0xDC, 0xBA, 0x98, 0x76, 0x54,
        0x32, 0x10, 0x0F, 0xF0, 0xA5, 0x5A,
    ]);
    assert_eq!(
        digest.to_hex_lowercase(),
        "0123456789abcdeffedcba98765432100ff0a55a"
    );
    assert_eq!(
        digest.to_hex_uppercase(),
        "0123456789ABCDEFFEDCBA98765432100FF0A55A"
    );
}

#[test]
fn computed_digest_bytes_match_hex() {
    let digest = SHA1::hash(b"");
    assert_eq!(digest.into_inner(), EMPTY_BYTES);
}

use chksum_sha1::SHA1;

const EMPTY_HEX: &str = "da39a3ee5e6b4b0d3255bfef95601890afd80709";
const DATA_HEX: &str = "a17c9aaa61e80a1bf71d0d850af4e5baa9800bbd";
const EXAMPLE_DATA_HEX: &str = "9fc42adac31303d68b444e6129f13f6093a0e045";

#[test]
fn empty_input_digest() {
    let hash = SHA1::new();
    assert_eq!(hash.digest().to_hex_lowercase(), EMPTY_HEX);
}

#[test]
fn empty_input_one_shot() {
    assert_eq!(SHA1::hash(b"").to_hex_lowercase(), EMPTY_HEX);
    assert_eq!(chksum_sha1::hash(b"").to_hex_lowercase(), EMPTY_HEX);
}

#[test]
fn data_digest() {
    assert_eq!(SHA1::hash(b"data").to_hex_lowercase(), DATA_HEX);
}

#[test]
fn data_digest_incremental() {
    let mut hash = SHA1::new();
    hash.update(b"data");
    assert_eq!(hash.digest().to_hex_lowercase(), DATA_HEX);
}

#[test]
fn example_data_digest() {
    assert_eq!(SHA1::hash(b"example data").to_hex_lowercase(), EXAMPLE_DATA_HEX);
    assert_eq!(chksum_sha1::hash(b"example data").to_hex_lowercase(), EXAMPLE_DATA_HEX);
}

#[test]
fn abc_digest() {
    assert_eq!(
        SHA1::hash(b"abc").to_hex_lowercase(),
        "a9993e364706816aba3e25717850c26c9cd0d89d"
    );
}

#[test]
fn two_block_message_digest() {
    // 56 bytes: the padding spills into a second block.
    let msg = b"abcdbcdecdefdefgefghfghighijhijkijkljklmklmnlmnomnopnopq";
    assert_eq!(
        SHA1::hash(msg).to_hex_lowercase(),
        "84983e441c3bd26ebaae4aa1f95129e5e54670f1"
    );
}

#[test]
fn million_a_digest() {
    let data = vec![b'a'; 1_000_000];
    assert_eq!(
        SHA1::hash(&data).to_hex_lowercase(),
        "34aa973cd4c4daa4f61eeb2bdbad27316534016f"
    );
}

#[test]
fn chunked_updates_match_one_shot() {
    let mut hash = SHA1::new();
    hash.update(b"example");
    hash.update(b" ");
    hash.update(b"data");
    assert_eq!(hash.digest().to_hex_lowercase(), EXAMPLE_DATA_HEX);
}

#[test]
fn arbitrary_chunk_sizes_match_one_shot() {
    let data: Vec<u8> = (0..=255u8).cycle().take(300).collect();
    let expected = SHA1::hash(&data).to_hex_lowercase();
    for chunk_size in [1usize, 7, 63, 64, 65, 128, 300] {
        let mut hash = SHA1::new();
        for chunk in data.chunks(chunk_size) {
            hash.update(chunk);
        }
        assert_eq!(hash.digest().to_hex_lowercase(), expected, "chunk size {chunk_size}");
    }
}

#[test]
fn reset_restores_initial_state() {
    let mut hash = SHA1::new();
    hash.update(b"example data");
    hash.reset();
    assert_eq!(hash.digest().to_hex_lowercase(), EMPTY_HEX);
}

#[test]
fn reset_then_update_matches_fresh_hasher() {
    let mut hash = SHA1::new();
    hash.update(b"something else entirely");
    hash.reset();
    hash.update(b"data");
    assert_eq!(hash.digest().to_hex_lowercase(), DATA_HEX);
}

#[test]
fn digest_does_not_mutate_state() {
    let mut hash = SHA1::new();
    hash.update(b"example");
    let first = hash.digest();
    let second = hash.digest();
    assert_eq!(first.to_hex_lowercase(), second.to_hex_lowercase());
    hash.update(b" data");
    assert_eq!(hash.digest().to_hex_lowercase(), EXAMPLE_DATA_HEX);
}

#[test]
fn digest_mid_block_then_continue() {
    // Query right at a block boundary and keep feeding.
    let data = vec![0x5au8; 64];
    let mut hash = SHA1::new();
    hash.update(&data);
    let at_boundary = hash.digest();
    assert_eq!(at_boundary.to_hex_lowercase(), SHA1::hash(&data).to_hex_lowercase());
    hash.update(b"data");
    let mut both = data.clone();
    both.extend_from_slice(b"data");
    assert_eq!(
        hash.digest().to_hex_lowercase(),
        SHA1::hash(&both).to_hex_lowercase()
    );
}

#[test]
fn empty_update_changes_nothing() {
    let mut hash = SHA1::new();
    hash.update(b"");
    assert_eq!(hash.digest().to_hex_lowercase(), EMPTY_HEX);
    hash.update(b"data");
    hash.update(b"");
    assert_eq!(hash.digest().to_hex_lowercase(), DATA_HEX);
}

#[test]
fn hashers_with_same_history_are_equal() {
    let mut a = SHA1::new();
    let mut b = SHA1::new();
    assert!(a == b);
    a.update(b"example data");
    assert!(a != b);
    b.update(b"example");
    b.update(b" data");
    assert!(a == b);
    a.reset();
    assert!(a == SHA1::new());
}

#[test]
fn cloned_hasher_continues_independently() {
    let mut a = SHA1::new();
    a.update(b"example ");
    let mut b = a.clone();
    b.update(b"data");
    a.update(b"data");
    assert_eq!(a.digest().to_hex_lowercase(), b.digest().to_hex_lowercase());
    assert_eq!(b.digest().to_hex_lowercase(), EXAMPLE_DATA_HEX);
}

#[test]
fn free_new_and_default_agree() {
    let a = chksum_sha1::new();
    let b = chksum_sha1::default();
    assert_eq!(a.digest().to_hex_lowercase(), b.digest().to_hex_lowercase());
    assert_eq!(a.digest().to_hex_lowercase(), EMPTY_HEX);
}

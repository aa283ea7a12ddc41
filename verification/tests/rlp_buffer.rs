use trie_nodes::rlp::RlpError;
use trie_nodes::rlp::RlpNodes;

#[test]
fn test_hash() {
    println!("Size of Abstraction: {}", std::mem::size_of::<RlpNodes>());
    println!("Size of : {}", std::mem::size_of::<RlpNodes>());
}

#[test]
fn from_raw_keeps_content_and_pads_with_zeros() {
    let src = [0x11u8, 0x22, 0x33];
    let node = RlpNodes::from_raw(&src).unwrap();
    let buf = node.as_slice();
    assert_eq!(buf.len(), 33);
    assert_eq!(&buf[..3], &src);
    assert!(buf[3..].iter().all(|&b| b == 0));
}

#[test]
fn from_raw_accepts_empty_and_full_capacity() {
    let empty = RlpNodes::from_raw(&[]).unwrap();
    assert!(empty.as_slice().iter().all(|&b| b == 0));

    let full = [0xEEu8; 33];
    let node = RlpNodes::from_raw(&full).unwrap();
    assert_eq!(node.as_slice(), &full);
}

#[test]
fn from_raw_rejects_oversized_content() {
    let too_big = [0u8; 34];
    assert!(RlpNodes::from_raw(&too_big).is_none());
    let much_too_big = [0x55u8; 100];
    assert!(RlpNodes::from_raw(&much_too_big).is_none());
}

#[test]
fn from_raw_rlp_reports_oversized_content() {
    let too_big = [0u8; 34];
    assert_eq!(RlpNodes::from_raw_rlp(&too_big), Err(RlpError::NodeTooLarge));

    let fits = [0x01u8, 0x02];
    let node = RlpNodes::from_raw_rlp(&fits).unwrap();
    assert_eq!(&node.as_slice()[..2], &fits);
}

#[test]
fn from_rlp_stores_short_encodings_inline() {
    let short = [0xC2u8, 0x01, 0x02];
    let node = RlpNodes::from_rlp(&short);
    assert_eq!(&node.as_slice()[..3], &short);
    assert!(node.as_slice()[3..].iter().all(|&b| b == 0));
    assert!(node.as_hash().is_none());

    let boundary = [0x07u8; 31];
    let node = RlpNodes::from_rlp(&boundary);
    assert_eq!(&node.as_slice()[..31], &boundary);
    assert!(node.as_hash().is_none());
}

#[test]
fn from_rlp_hashes_long_encodings() {
    let exactly_32 = [0xABu8; 32];
    let node = RlpNodes::from_rlp(&exactly_32);
    let digest = node.as_hash().expect("a 32-byte encoding must be hashed");
    assert_eq!(digest, alloy_primitives::keccak256(exactly_32).0);
    assert_eq!(node.as_slice()[0], 0x80);

    let longer = [0x5Au8; 60];
    let node = RlpNodes::from_rlp(&longer);
    let digest = node.as_hash().expect("a long encoding must be hashed");
    assert_eq!(digest, alloy_primitives::keccak256(longer).0);
}

#[test]
fn word_rlp_round_trips_through_as_hash() {
    let mut word = [0u8; 32];
    for (i, b) in word.iter_mut().enumerate() {
        *b = i as u8;
    }
    let node = RlpNodes::word_rlp(&word);
    assert_eq!(node.as_slice()[0], 0x80);
    assert_eq!(node.as_hash(), Some(word));

    let zero_word = [0u8; 32];
    let node = RlpNodes::word_rlp(&zero_word);
    assert_eq!(node.as_hash(), Some(zero_word));
}

#[test]
fn as_hash_rejects_inline_content() {
    let inline = RlpNodes::from_raw(&[0x01u8, 0x02]).unwrap();
    assert!(inline.as_hash().is_none());

    let tagged = [0x80u8; 33];
    let node = RlpNodes::from_raw(&tagged).unwrap();
    assert_eq!(node.as_hash(), Some([0x80u8; 32]));
}

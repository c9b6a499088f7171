use lamport::bits::get_bit;
use lamport::hash::{blocks_equal, Block};
use lamport::scheme::count_agreeing;
use lamport::{LamportPrivateKey, LamportPublicKey, LamportSignature};

fn numbered_pairs() -> Vec<(Block, Block)> {
    let mut pairs: Vec<(Block, Block)> = Vec::new();
    for i in 0..256usize {
        let mut first = [0x10u8; 32];
        let mut second = [0xabu8; 32];
        first[0] = i as u8;
        second[0] = i as u8;
        pairs.push((first, second));
    }
    pairs
}

fn hex_of(blocks: &[Block]) -> String {
    let mut text = String::new();
    for block in blocks {
        for byte in block {
            text.push_str(&format!("{:02x}", byte));
        }
    }
    text
}

#[test]
fn get_bit_boundaries() {
    assert_eq!(get_bit(0b1000_0000, 7), Ok(true));
    assert_eq!(get_bit(0b1000_0000, 0), Ok(false));
    assert_eq!(get_bit(0b1000_0000, 8), Err(()));
    assert_eq!(get_bit(0xff, 255), Err(()));
}

#[test]
fn get_bit_reads_every_bit_low_first() {
    for index in 0..8u8 {
        assert_eq!(get_bit(1 << index, index), Ok(true));
        assert_eq!(get_bit(!(1 << index), index), Ok(false));
        assert_eq!(get_bit(0, index), Ok(false));
        assert_eq!(get_bit(0xff, index), Ok(true));
    }
    assert_eq!(get_bit(0b0000_0101, 0), Ok(true));
    assert_eq!(get_bit(0b0000_0101, 1), Ok(false));
    assert_eq!(get_bit(0b0000_0101, 2), Ok(true));
}

#[test]
fn blocks_compare_byte_for_byte() {
    let a = [3u8; 32];
    let mut b = [3u8; 32];
    assert!(blocks_equal(&a, &b));
    b[31] = 4;
    assert!(!blocks_equal(&a, &b));
    b[31] = 3;
    b[0] = 0;
    assert!(!blocks_equal(&a, &b));
}

#[test]
fn agreeing_positions_are_counted() {
    let expected: Vec<Block> = vec![[1; 32], [2; 32], [3; 32], [4; 32]];
    let revealed: Vec<Block> = vec![[1; 32], [9; 32], [3; 32]];
    assert_eq!(count_agreeing(&expected, &revealed), 2);
    assert_eq!(count_agreeing(&revealed, &expected), 2);
    assert_eq!(count_agreeing(&expected, &expected), 4);
    assert_eq!(count_agreeing(&expected, &Vec::new()), 0);
}

#[test]
fn keys_and_signatures_hold_256_entries() {
    let mut pairs = numbered_pairs();
    assert!(LamportPrivateKey::from_pairs(pairs.clone()).is_some());
    assert!(LamportPublicKey::from_pairs(pairs.clone()).is_some());
    pairs.pop();
    assert!(LamportPrivateKey::from_pairs(pairs.clone()).is_none());
    assert!(LamportPublicKey::from_pairs(pairs.clone()).is_none());
    pairs.push(([0; 32], [0; 32]));
    pairs.push(([0; 32], [0; 32]));
    assert!(LamportPrivateKey::from_pairs(pairs.clone()).is_none());
    assert!(LamportPublicKey::from_pairs(pairs).is_none());
    assert!(LamportPrivateKey::from_pairs(Vec::new()).is_none());

    assert!(LamportSignature::from_entries(vec![[0u8; 32]; 256]).is_some());
    assert!(LamportSignature::from_entries(vec![[0u8; 32]; 255]).is_none());
    assert!(LamportSignature::from_entries(vec![[0u8; 32]; 257]).is_none());
}

#[test]
fn made_keys_hand_back_what_they_were_given() {
    let pairs = numbered_pairs();
    let private = LamportPrivateKey::from_pairs(pairs.clone()).unwrap();
    assert_eq!(private.pairs(), &pairs);
    let public = LamportPublicKey::from_pairs(pairs.clone()).unwrap();
    assert_eq!(public.pairs(), &pairs);
    let entries: Vec<Block> = pairs.iter().map(|pair| pair.0).collect();
    let signature = LamportSignature::from_entries(entries.clone()).unwrap();
    assert_eq!(signature.entries(), &entries);
}

#[test]
fn fresh_key_has_256_pairs_of_distinct_secrets() {
    let private = LamportPrivateKey::new();
    let pairs = private.pairs();
    assert_eq!(pairs.len(), 256);
    for pair in pairs {
        assert_ne!(pair.0, pair.1);
        assert_ne!(pair.0, [0u8; 32]);
        assert_ne!(pair.1, [0u8; 32]);
    }
    assert_ne!(pairs[0], pairs[1]);
    let again = LamportPrivateKey::new();
    assert_ne!(again.pairs(), pairs);
}

#[test]
fn sign_digest_uses_the_bit_index_inside_each_byte() {
    let pairs = numbered_pairs();
    let private = LamportPrivateKey::from_pairs(pairs.clone()).unwrap();
    let mut digest = [0u8; 32];
    digest[0] = 0b0000_0001;
    digest[1] = 0b1000_0000;
    digest[31] = 0b0001_0000;
    let signature = private.sign_digest(&digest);
    let entries = signature.entries();
    assert_eq!(entries.len(), 256);
    for p in 0..256 {
        let set = p == 0 || p == 15 || p == 252;
        let pair = pairs[p % 8];
        assert_eq!(entries[p], if set { pair.1 } else { pair.0 });
    }
    assert_eq!(entries[8], pairs[0].0);
    assert_eq!(entries[15], pairs[7].1);
    assert_eq!(entries[252], pairs[4].1);
}

#[test]
fn all_zero_and_all_one_digests() {
    let pairs = numbered_pairs();
    let private = LamportPrivateKey::from_pairs(pairs.clone()).unwrap();
    let zeros = private.sign_digest(&[0u8; 32]);
    let ones = private.sign_digest(&[0xffu8; 32]);
    for p in 0..256 {
        assert_eq!(zeros.entries()[p], pairs[p % 8].0);
        assert_eq!(ones.entries()[p], pairs[p % 8].1);
    }
}

#[test]
fn expected_commitments_follow_the_digest() {
    let pairs = numbered_pairs();
    let public = LamportPublicKey::from_pairs(pairs.clone()).unwrap();
    let mut digest = [0u8; 32];
    digest[2] = 0b0000_0110;
    let expected = public.expected_commitments(&digest);
    assert_eq!(expected.len(), 256);
    for p in 0..256 {
        let set = p == 17 || p == 18;
        let pair = pairs[p % 8];
        assert_eq!(expected[p], if set { pair.1 } else { pair.0 });
    }
}

#[test]
fn verify_commitments_wants_every_position() {
    let public = LamportPublicKey::from_pairs(numbered_pairs()).unwrap();
    let digest = [0x5au8; 32];
    let expected = public.expected_commitments(&digest);
    assert!(public.verify_commitments(&digest, &expected));

    for at in [0usize, 128, 255] {
        let mut revealed = expected.clone();
        revealed[at][5] ^= 1;
        assert!(!public.verify_commitments(&digest, &revealed));
    }

    let mut short = expected.clone();
    short.pop();
    assert!(!public.verify_commitments(&digest, &short));
    let mut long = expected.clone();
    long.push([0u8; 32]);
    assert!(!public.verify_commitments(&digest, &long));
    assert!(!public.verify_commitments(&digest, &Vec::new()));

    let other_digest = [0xa5u8; 32];
    assert!(!public.verify_commitments(&other_digest, &expected));
}

#[test]
fn signature_commitments_are_the_hashes_of_its_entries() {
    let entries: Vec<Block> = numbered_pairs().iter().map(|pair| pair.1).collect();
    let signature = LamportSignature::from_entries(entries.clone()).unwrap();
    let revealed = signature.commitments();
    assert_eq!(revealed.len(), 256);
    for p in 0..256 {
        let hashed: bitcoin_hashes::sha256::Hash = bitcoin_hashes::Hash::hash(&entries[p]);
        assert_eq!(revealed[p], bitcoin_hashes::Hash::into_inner(hashed));
        assert_ne!(revealed[p], entries[p]);
    }
}

#[test]
fn private_key_dump() {
    let pairs = numbered_pairs();
    let private = LamportPrivateKey::from_pairs(pairs.clone()).unwrap();
    let firsts: Vec<Block> = pairs.iter().map(|pair| pair.0).collect();
    let seconds: Vec<Block> = pairs.iter().map(|pair| pair.1).collect();
    let text = private.to_string();
    assert_eq!(text, format!("{}\n{}", hex_of(&firsts), hex_of(&seconds)));
    assert_eq!(text.len(), 256 * 64 + 1 + 256 * 64);
    assert!(text.starts_with("0010101010"));
    let second_line = text.lines().nth(1).unwrap();
    assert!(second_line.starts_with("00abababab"));
    assert!(second_line.ends_with(&format!("ff{}", "ab".repeat(31))));
    assert_eq!(text.lines().count(), 2);
}

#[test]
fn public_key_dump() {
    let mut pairs = numbered_pairs();
    pairs[0].0 = [0x0f; 32];
    pairs[0].1 = [0xf0; 32];
    let public = LamportPublicKey::from_pairs(pairs.clone()).unwrap();
    let firsts: Vec<Block> = pairs.iter().map(|pair| pair.0).collect();
    let seconds: Vec<Block> = pairs.iter().map(|pair| pair.1).collect();
    let text = public.to_string();
    assert_eq!(text, format!("{}\n{}", hex_of(&firsts), hex_of(&seconds)));
    assert!(text.starts_with("0f0f0f0f"));
    assert!(text.contains("\nf0f0f0f0"));
    assert!(text.chars().all(|c| c == '\n' || "0123456789abcdef".contains(c)));
}

#[test]
fn dump_of_a_derived_key_is_the_hex_of_its_commitments() {
    let private = LamportPrivateKey::from_pairs(numbered_pairs()).unwrap();
    let public = LamportPublicKey::new(&private);
    let firsts: Vec<Block> = public.pairs().iter().map(|pair| pair.0).collect();
    let seconds: Vec<Block> = public.pairs().iter().map(|pair| pair.1).collect();
    assert_eq!(public.to_string(), format!("{}\n{}", hex_of(&firsts), hex_of(&seconds)));
}

#[test]
fn draws_fill_the_pairs_in_order() {
    let mut draws: Vec<Block> = Vec::new();
    for k in 0..512usize {
        let mut block = [0u8; 32];
        block[0] = (k / 256) as u8;
        block[1] = (k % 256) as u8;
        draws.push(block);
    }
    let private = LamportPrivateKey::from_draws(draws.clone()).unwrap();
    let pairs = private.pairs();
    assert_eq!(pairs.len(), 256);
    for i in 0..256 {
        assert_eq!(pairs[i].0, draws[2 * i]);
        assert_eq!(pairs[i].1, draws[2 * i + 1]);
    }
    assert_eq!(pairs[0].1[1], 1);
    assert_eq!(pairs[255].1[0], 1);
    assert_eq!(pairs[255].1[1], 255);
}

#[test]
fn draws_must_number_512() {
    assert!(LamportPrivateKey::from_draws(vec![[0u8; 32]; 512]).is_some());
    assert!(LamportPrivateKey::from_draws(vec![[0u8; 32]; 511]).is_none());
    assert!(LamportPrivateKey::from_draws(vec![[0u8; 32]; 513]).is_none());
    assert!(LamportPrivateKey::from_draws(vec![[0u8; 32]; 256]).is_none());
    assert!(LamportPrivateKey::from_draws(Vec::new()).is_none());
}

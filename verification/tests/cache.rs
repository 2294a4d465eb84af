use slightshot::cache::{FastHasher, FastMap};
use std::hash::{Hash, Hasher};

fn hash_of<T: Hash>(value: &T) -> u64 {
    let mut hasher = FastHasher::default();
    value.hash(&mut hasher);
    hasher.finish()
}

#[test]
fn equal_keys_hash_identically() {
    let a = (3usize, [10u8, 20, 30], 42u32);
    let b = (3usize, [10u8, 20, 30], 42u32);
    assert_eq!(hash_of(&a), hash_of(&b));
}

#[test]
fn distinguishes_different_keys() {
    let a = (1usize, [0u8, 0, 0], 0u32);
    let b = (2usize, [0u8, 0, 0], 0u32);
    assert_ne!(hash_of(&a), hash_of(&b));
}

#[test]
fn map_round_trips_values() {
    let mut map: FastMap<(char, u32), i32> = FastMap::default();
    map.insert(('a', 12), 1);
    map.insert(('b', 12), 2);
    assert_eq!(map.get(&('a', 12)), Some(&1));
    assert_eq!(map.get(&('b', 12)), Some(&2));
    assert_eq!(map.get(&('a', 13)), None);
}

const SEED: u64 = 0x517cc1b727220a95;

#[test]
fn a_fresh_hasher_finishes_at_zero() {
    assert_eq!(FastHasher::default().finish(), 0);
}

#[test]
fn one_word_folds_rotate_xor_multiply() {
    let mut h = FastHasher::default();
    h.write_u64(5);
    assert_eq!(h.finish(), 5u64.wrapping_mul(SEED));
    let mut again = FastHasher::default();
    again.write_u64(5);
    again.write_u8(1);
    let expected = ((5u64.wrapping_mul(SEED)).rotate_left(5) ^ 1).wrapping_mul(SEED);
    assert_eq!(again.finish(), expected);
}

#[test]
fn byte_writes_match_the_word_writes() {
    let mut bytes = FastHasher::default();
    bytes.write(&[7]);
    let mut word = FastHasher::default();
    word.write_u8(7);
    assert_eq!(bytes.finish(), word.finish());

    let mut four = FastHasher::default();
    four.write(&[1, 2, 3, 4]);
    let mut u32_word = FastHasher::default();
    u32_word.write_u32(u32::from_le_bytes([1, 2, 3, 4]));
    assert_eq!(four.finish(), u32_word.finish());

    let mut eight = FastHasher::default();
    eight.write(&[1, 2, 3, 4, 5, 6, 7, 8]);
    let mut u64_word = FastHasher::default();
    u64_word.write_u64(u64::from_le_bytes([1, 2, 3, 4, 5, 6, 7, 8]));
    assert_eq!(eight.finish(), u64_word.finish());
}

#[test]
fn long_writes_fold_words_then_a_half_word_then_bytes() {
    let data: Vec<u8> = (1..=15).collect();
    let mut whole = FastHasher::default();
    whole.write(&data);
    let mut parts = FastHasher::default();
    parts.write_u64(u64::from_le_bytes([1, 2, 3, 4, 5, 6, 7, 8]));
    parts.write_u32(u32::from_le_bytes([9, 10, 11, 12]));
    parts.write_u8(13);
    parts.write_u8(14);
    parts.write_u8(15);
    assert_eq!(whole.finish(), parts.finish());
}

#[test]
fn different_single_words_give_different_states() {
    let mut a = FastHasher::default();
    a.write_usize(1);
    let mut b = FastHasher::default();
    b.write_usize(2);
    assert_ne!(a.finish(), b.finish());
}

#[test]
fn one_differing_word_amid_equal_writes_separates_the_hashes() {
    let run = |middle: u32| {
        let mut h = FastHasher::default();
        h.write(&[5, 6, 7]);
        h.write_u64(0xdead_beef);
        h.write_u32(middle);
        h.write(&[1, 2, 3, 4, 5, 6, 7, 8, 9]);
        h.write_usize(3);
        h.finish()
    };
    assert_eq!(run(10), run(10));
    assert_ne!(run(10), run(11));
}

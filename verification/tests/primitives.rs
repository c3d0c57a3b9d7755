use evm_interpreter::hash::{keccak256, keccak_empty};
use evm_interpreter::primitives::{Address, Word};
use evm_interpreter::protocol::{
    ByzantiumSpec, FrontierSpec, ShanghaiSpec, Spec, SpecId,
};

fn word_with_low_bytes(low: &[u8]) -> Word {
    let mut bytes = [0u8; 32];
    bytes[32 - low.len()..].copy_from_slice(low);
    Word { bytes }
}

#[test]
fn word_from_u64_is_big_endian() {
    let w = Word::from_u64(0x0102_0304_0506_0708);
    assert_eq!(w, word_with_low_bytes(&[1, 2, 3, 4, 5, 6, 7, 8]));
    assert_eq!(w.to_u64(), Some(0x0102_0304_0506_0708));
    assert_eq!(Word::from_u64(u64::MAX).to_u64(), Some(u64::MAX));
    assert_eq!(Word::from_u64(0), Word::zero());
}

#[test]
fn word_from_usize_round_trips() {
    assert_eq!(Word::from_usize(1024).as_usize(), Some(1024));
    assert_eq!(Word::from_usize(usize::MAX).as_usize(), Some(usize::MAX));
    assert_eq!(Word::from_usize(usize::MAX).as_usize_saturated(), usize::MAX);
}

#[test]
fn word_beyond_the_addressable_range_saturates() {
    let mut bytes = [0u8; 32];
    bytes[23] = 1;
    let w = Word::from_be_bytes(bytes);
    assert_eq!(w.to_u64(), None);
    assert_eq!(w.as_usize(), None);
    assert_eq!(w.as_usize_saturated(), usize::MAX);
    let top = Word::from_be_bytes([0xff; 32]);
    assert_eq!(top.as_usize(), None);
    assert_eq!(top.as_usize_saturated(), usize::MAX);
}

#[test]
fn word_is_zero_only_for_zero() {
    assert!(Word::zero().is_zero());
    assert!(!Word::from_u64(1).is_zero());
    let mut bytes = [0u8; 32];
    bytes[0] = 0x80;
    assert!(!Word::from_be_bytes(bytes).is_zero());
}

#[test]
fn word_from_be_slice_extends_on_the_left() {
    assert_eq!(Word::from_be_slice(&[]), Word::zero());
    assert_eq!(Word::from_be_slice(&[0xab, 0xcd]), Word::from_u64(0xabcd));
    let full: Vec<u8> = (1..=32).collect();
    assert_eq!(Word::from_be_slice(&full).to_be_bytes().to_vec(), full);
}

#[test]
fn address_into_word_keeps_the_low_twenty_bytes() {
    let address = Address { bytes: [0x11; 20] };
    let word = address.into_word();
    assert_eq!(&word.bytes[..12], &[0u8; 12]);
    assert_eq!(&word.bytes[12..], &[0x11u8; 20]);
}

#[test]
fn keccak256_of_nothing_is_the_empty_hash() {
    assert_eq!(keccak256(&[]), keccak_empty());
    assert_eq!(keccak_empty().bytes[0], 0xc5);
    assert_eq!(keccak_empty().bytes[31], 0x70);
}

#[test]
fn keccak256_of_abc() {
    let expected: [u8; 32] = [
        0x4e, 0x03, 0x65, 0x7a, 0xea, 0x45, 0xa9, 0x4f, 0xc7, 0xd4, 0x7b, 0xa8, 0x26, 0xc8, 0xd6,
        0x67, 0xc0, 0xd1, 0xe6, 0xe3, 0x3a, 0x64, 0xa0, 0x36, 0xec, 0x44, 0xf5, 0x8f, 0xa1, 0x2d,
        0x6c, 0x45,
    ];
    assert_eq!(keccak256(b"abc").bytes, expected);
}

#[test]
fn spec_ids_are_ordered_by_introduction() {
    assert!(SpecId::enabled(SpecId::Shanghai, SpecId::Byzantium));
    assert!(SpecId::enabled(SpecId::Byzantium, SpecId::Byzantium));
    assert!(!SpecId::enabled(SpecId::Homestead, SpecId::Byzantium));
    assert!(!SpecId::enabled(SpecId::Merge, SpecId::Shanghai));
    assert_eq!(SpecId::Frontier.ordinal(), 0);
    assert_eq!(SpecId::Cancun.ordinal(), 12);
}

#[test]
fn spec_types_name_their_version() {
    assert_eq!(FrontierSpec::id(), SpecId::Frontier);
    assert_eq!(ByzantiumSpec::id(), SpecId::Byzantium);
    assert_eq!(ShanghaiSpec::id(), SpecId::Shanghai);
}

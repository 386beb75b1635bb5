use eval_harness::decode::{
    decode_array, decode_call_result, decode_through_pointer, try_decode_str, FromWasmMemory,
};
use eval_harness::memory::Memory;
use eval_harness::values::{RocList, RocStr};

/// An eight-byte small-string encoding: the content bytes inline, the
/// last byte the length with the sign bit set.
fn small_str_bytes(content: &[u8]) -> [u8; 8] {
    assert!(content.len() <= 7);
    let mut bytes = [0u8; 8];
    bytes[..content.len()].copy_from_slice(content);
    bytes[7] = 0x80 | content.len() as u8;
    bytes
}

/// A header whose high half is `length` and whose low half is `ptr`.
fn header_bytes(ptr: u32, length: u32) -> [u8; 8] {
    let mut bytes = [0u8; 8];
    bytes[..4].copy_from_slice(&ptr.to_le_bytes());
    bytes[4..].copy_from_slice(&length.to_le_bytes());
    bytes
}

#[test]
fn empty_string_decodes_from_zero_header() {
    let m = Memory::new(vec![0u8; 8]);
    let s = RocStr::decode(&m, 0);
    assert!(s.is_empty());
    assert_eq!(s.into_bytes(), Vec::<u8>::new());
}

#[test]
fn small_string_decodes_inline() {
    let m = Memory::new(small_str_bytes(b"hello").to_vec());
    let s = RocStr::decode(&m, 0);
    assert_eq!(s.into_bytes(), b"hello".to_vec());
}

#[test]
fn seven_byte_string_is_still_small() {
    let m = Memory::new(small_str_bytes(b"sevens!").to_vec());
    let s = RocStr::decode(&m, 0);
    assert_eq!(s.into_bytes(), b"sevens!".to_vec());
}

#[test]
fn small_string_ignores_bytes_outside_the_header() {
    // Only the eight header bytes may take part in a small-string decode.
    let mut bytes = small_str_bytes(b"abc").to_vec();
    bytes.extend_from_slice(&[0xEE; 8]);
    let m = Memory::new(bytes);
    let s = RocStr::decode(&m, 0);
    assert_eq!(s.into_bytes(), b"abc".to_vec());
}

#[test]
fn nine_byte_string_decodes_through_the_pointer() {
    // Nine characters force the big-string path: length in the high
    // half, pointer to the content in the low half.
    let mut bytes = header_bytes(16, 9).to_vec();
    bytes.resize(16, 0);
    bytes.extend_from_slice(b"ninechars");
    let m = Memory::new(bytes);
    let s = RocStr::decode(&m, 0);
    assert_eq!(s.into_bytes(), b"ninechars".to_vec());
}

#[test]
fn big_string_reads_exactly_length_bytes() {
    let mut bytes = header_bytes(8, 3).to_vec();
    bytes.extend_from_slice(b"abcdef");
    let m = Memory::new(bytes);
    let s = RocStr::decode(&m, 0);
    assert_eq!(s.into_bytes(), b"abc".to_vec());
}

#[test]
fn zero_length_list_decodes_empty() {
    // The pointer half is arbitrary in a zero-length list.
    let m = Memory::new(header_bytes(0xCAFE, 0).to_vec());
    let l: RocList<u32> = RocList::decode(&m, 0);
    assert!(l.is_empty());
}

#[test]
fn list_of_u32_reads_exactly_n_contiguous_elements() {
    let mut bytes = header_bytes(8, 3).to_vec();
    for v in [7u32, 8, 9] {
        bytes.extend_from_slice(&v.to_le_bytes());
    }
    // A fourth element's worth of bytes that must not be read.
    bytes.extend_from_slice(&0xFFFF_FFFFu32.to_le_bytes());
    let m = Memory::new(bytes);
    let l: RocList<u32> = RocList::decode(&m, 0);
    assert_eq!(l.len(), 3);
    assert_eq!(l.into_vec(), vec![7, 8, 9]);
}

#[test]
fn list_of_u64_elements_are_eight_bytes_apart() {
    let mut bytes = header_bytes(8, 2).to_vec();
    bytes.extend_from_slice(&111u64.to_le_bytes());
    bytes.extend_from_slice(&222u64.to_le_bytes());
    let m = Memory::new(bytes);
    let l: RocList<u64> = RocList::decode(&m, 0);
    assert_eq!(l.into_vec(), vec![111, 222]);
}

#[test]
fn list_of_small_strings() {
    let mut bytes = header_bytes(8, 2).to_vec();
    bytes.extend_from_slice(&small_str_bytes(b"one"));
    bytes.extend_from_slice(&small_str_bytes(b"two"));
    let m = Memory::new(bytes);
    let l: RocList<RocStr> = RocList::decode(&m, 0);
    assert_eq!(l.len(), 2);
    assert_eq!(l.get(0).as_bytes().clone(), b"one".to_vec());
    assert_eq!(l.get(1).as_bytes().clone(), b"two".to_vec());
}

#[test]
fn call_result_payload_sits_behind_the_tag_word() {
    // The first eight bytes at the returned address are the call-result
    // discriminant; the payload follows. Source `1 + 1` comes back as
    // the integer 2 there.
    let mut bytes = vec![0u8; 8];
    bytes.extend_from_slice(&2i64.to_le_bytes());
    let m = Memory::new(bytes);
    let v: i64 = decode_call_result(&m, 0);
    assert_eq!(v, 2);
}

#[test]
fn call_result_string_payload() {
    // A nine-character result arrives through the big-string path, its
    // header behind the tag word.
    let mut bytes = vec![0u8; 8];
    bytes.extend_from_slice(&header_bytes(24, 9));
    bytes.resize(24, 0);
    bytes.extend_from_slice(b"ninechars");
    let m = Memory::new(bytes);
    let s: RocStr = decode_call_result(&m, 0);
    assert_eq!(s.into_bytes(), b"ninechars".to_vec());
}

#[test]
fn reference_decode_follows_the_pointer_once() {
    // A four-byte pointer at offset 0 to a u64 at offset 8.
    let mut bytes = 8u32.to_le_bytes().to_vec();
    bytes.resize(8, 0);
    bytes.extend_from_slice(&4242u64.to_le_bytes());
    let m = Memory::new(bytes);
    let v: u64 = decode_through_pointer(&m, 0);
    assert_eq!(v, 4242);
}

#[test]
fn fixed_array_reads_the_whole_region_contiguously() {
    let mut bytes = Vec::new();
    for v in [10u16, 20, 30, 40] {
        bytes.extend_from_slice(&v.to_le_bytes());
    }
    let m = Memory::new(bytes);
    let v: Vec<u16> = decode_array(&m, 0, 4);
    assert_eq!(v, vec![10, 20, 30, 40]);
    let tail: Vec<u16> = decode_array(&m, 4, 2);
    assert_eq!(tail, vec![30, 40]);
    let none: Vec<u16> = decode_array(&m, 0, 0);
    assert_eq!(none, Vec::<u16>::new());
}

#[test]
fn checked_string_decode_accepts_well_formed_encodings() {
    let m = Memory::new(small_str_bytes(b"hello").to_vec());
    let s = try_decode_str(&m, 0).unwrap();
    assert_eq!(s.into_bytes(), b"hello".to_vec());
    let m = Memory::new(vec![0u8; 8]);
    assert!(try_decode_str(&m, 0).unwrap().is_empty());
}

#[test]
fn checked_string_decode_refuses_mismatched_encodings() {
    // Too short for a header.
    let m = Memory::new(vec![0u8; 4]);
    assert!(try_decode_str(&m, 0).is_none());
    // Inline length beyond the seven inline bytes.
    let mut bytes = [0u8; 8];
    bytes[7] = 0x80 | 9;
    let m = Memory::new(bytes.to_vec());
    assert!(try_decode_str(&m, 0).is_none());
    // Big-string region reaching outside the memory.
    let m = Memory::new(header_bytes(4, 100).to_vec());
    assert!(try_decode_str(&m, 0).is_none());
}

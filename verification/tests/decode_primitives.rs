use eval_harness::decode::FromWasmMemory;
use eval_harness::memory::Memory;

fn mem_from(bytes: Vec<u8>) -> Memory {
    Memory::new(bytes)
}

#[test]
fn u8_reads_byte_at_offset() {
    let m = mem_from(vec![0xAA, 0xBB, 0xCC]);
    assert_eq!(u8::decode(&m, 0), 0xAA);
    assert_eq!(u8::decode(&m, 1), 0xBB);
    assert_eq!(u8::decode(&m, 2), 0xCC);
}

#[test]
fn u16_round_trip() {
    let mut bytes = vec![0u8; 8];
    bytes[2..4].copy_from_slice(&0x1234u16.to_le_bytes());
    let m = mem_from(bytes);
    assert_eq!(u16::decode(&m, 2), 0x1234);
}

#[test]
fn u32_round_trip() {
    let mut bytes = vec![0u8; 8];
    bytes[4..8].copy_from_slice(&0xDEAD_BEEFu32.to_le_bytes());
    let m = mem_from(bytes);
    assert_eq!(u32::decode(&m, 4), 0xDEAD_BEEF);
}

#[test]
fn u64_round_trip() {
    let mut bytes = vec![0u8; 16];
    bytes[8..16].copy_from_slice(&0x0123_4567_89AB_CDEFu64.to_le_bytes());
    let m = mem_from(bytes);
    assert_eq!(u64::decode(&m, 8), 0x0123_4567_89AB_CDEF);
}

#[test]
fn u128_round_trip() {
    let v: u128 = 0x0011_2233_4455_6677_8899_AABB_CCDD_EEFF;
    let m = mem_from(v.to_le_bytes().to_vec());
    assert_eq!(u128::decode(&m, 0), v);
}

#[test]
fn signed_negative_values() {
    let m = mem_from(vec![0xFF]);
    assert_eq!(i8::decode(&m, 0), -1);
    let m = mem_from((-2i16).to_le_bytes().to_vec());
    assert_eq!(i16::decode(&m, 0), -2);
    let m = mem_from((-100_000i32).to_le_bytes().to_vec());
    assert_eq!(i32::decode(&m, 0), -100_000);
    let m = mem_from((-5_000_000_000i64).to_le_bytes().to_vec());
    assert_eq!(i64::decode(&m, 0), -5_000_000_000);
    let m = mem_from((-1i128).to_le_bytes().to_vec());
    assert_eq!(i128::decode(&m, 0), -1);
}

#[test]
fn signed_positive_values() {
    let m = mem_from(vec![0x7F]);
    assert_eq!(i8::decode(&m, 0), 127);
    let m = mem_from(9_000i16.to_le_bytes().to_vec());
    assert_eq!(i16::decode(&m, 0), 9_000);
    let m = mem_from(2i64.to_le_bytes().to_vec());
    assert_eq!(i64::decode(&m, 0), 2);
}

#[test]
fn bool_reads_canonical_bytes() {
    let m = mem_from(vec![0, 1]);
    assert_eq!(bool::decode(&m, 0), false);
    assert_eq!(bool::decode(&m, 1), true);
}

#[test]
fn usize_is_four_bytes_in_the_artifact() {
    let mut bytes = vec![0u8; 8];
    bytes[0..4].copy_from_slice(&305_419_896u32.to_le_bytes());
    // The four bytes after the value must not take part in the decode.
    bytes[4] = 0xFF;
    let m = mem_from(bytes);
    assert_eq!(usize::decode(&m, 0), 305_419_896usize);
    assert_eq!(usize::wasm_size(), 4);
}

#[test]
fn unit_decodes_from_nothing() {
    let m = mem_from(vec![]);
    <() as FromWasmMemory>::decode(&m, 0);
    assert_eq!(<() as FromWasmMemory>::wasm_size(), 0);
}

#[test]
fn sizes_and_alignments_are_the_natural_widths() {
    assert_eq!(u8::wasm_size(), 1);
    assert_eq!(u16::wasm_size(), 2);
    assert_eq!(u32::wasm_size(), 4);
    assert_eq!(u64::wasm_size(), 8);
    assert_eq!(u128::wasm_size(), 16);
    assert_eq!(i64::wasm_align(), 8);
    assert_eq!(bool::wasm_size(), 1);
}

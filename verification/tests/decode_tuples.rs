use eval_harness::decode::{try_decode_pair, try_decode_triple, FromWasmMemory};
use eval_harness::memory::Memory;
use eval_harness::{max2, max3};

#[test]
fn pair_second_field_starts_at_firsts_padded_width() {
    let mut bytes = 300u64.to_le_bytes().to_vec();
    bytes.extend_from_slice(&77u32.to_le_bytes());
    let m = Memory::new(bytes);
    let (a, b): (u64, u32) = FromWasmMemory::decode(&m, 0);
    assert_eq!(a, 300);
    assert_eq!(b, 77);
}

#[test]
fn triple_u64_u32_u8_fields_sit_at_0_8_12() {
    let mut bytes = 300u64.to_le_bytes().to_vec();
    bytes.extend_from_slice(&77u32.to_le_bytes());
    bytes.push(9);
    let m = Memory::new(bytes);
    let (a, b, c): (u64, u32, u8) = FromWasmMemory::decode(&m, 0);
    assert_eq!((a, b, c), (300, 77, 9));
    // The same fields decoded at those offsets directly.
    assert_eq!(u64::decode(&m, 0), 300);
    assert_eq!(u32::decode(&m, 8), 77);
    assert_eq!(u8::decode(&m, 12), 9);
}

#[test]
fn increasing_alignment_pair_is_refused_before_any_field_is_read() {
    let m = Memory::new(vec![0xAB; 16]);
    let r: Option<(u8, u32)> = try_decode_pair(&m, 0);
    assert!(r.is_none());
}

#[test]
fn non_increasing_alignment_pair_is_decoded() {
    let mut bytes = 77u32.to_le_bytes().to_vec();
    bytes.push(9);
    let m = Memory::new(bytes);
    let r: Option<(u32, u8)> = try_decode_pair(&m, 0);
    assert_eq!(r, Some((77, 9)));
}

#[test]
fn increasing_alignment_triple_is_refused() {
    let m = Memory::new(vec![0u8; 32]);
    let r: Option<(u64, u8, u32)> = try_decode_triple(&m, 0);
    assert!(r.is_none());
}

#[test]
fn non_increasing_alignment_triple_is_decoded() {
    let mut bytes = 300u64.to_le_bytes().to_vec();
    bytes.extend_from_slice(&77u32.to_le_bytes());
    bytes.push(9);
    let m = Memory::new(bytes);
    let r: Option<(u64, u32, u8)> = try_decode_triple(&m, 0);
    assert_eq!(r, Some((300, 77, 9)));
}

#[test]
fn tuple_alignment_is_the_largest_field_size() {
    assert_eq!(<(u64, u32) as FromWasmMemory>::wasm_align(), 8);
    assert_eq!(<(u8, u8) as FromWasmMemory>::wasm_align(), 1);
    assert_eq!(<(u64, u32, u8) as FromWasmMemory>::wasm_align(), 8);
    assert_eq!(<(u64, u32) as FromWasmMemory>::wasm_size(), 12);
    assert_eq!(<(u64, u32, u8) as FromWasmMemory>::wasm_size(), 13);
}

#[test]
fn max_helpers_pick_the_largest() {
    assert_eq!(max2(3, 5), 5);
    assert_eq!(max2(5, 3), 5);
    assert_eq!(max3(1, 2, 3), 3);
    assert_eq!(max3(3, 2, 1), 3);
    assert_eq!(max3(2, 3, 1), 3);
}

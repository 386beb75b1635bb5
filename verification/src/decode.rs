//! The memory decoding protocol: a typed, alignment-aware deserializer
//! that reconstructs host values from the raw bytes of an executed
//! artifact's linear memory.
//!
//! For each decodable type three static facts are fixed: its encoded size,
//! its required alignment, and the mapping from (memory, offset) to a host
//! value. Composite rules (strings, lists, tuples) build on the primitive
//! ones. Decoding is strictly read-only and never aliases the artifact's
//! memory: every result is an owned copy.
use vstd::bytes::*;
use vstd::prelude::*;

use crate::memory::Memory;
use crate::values::{RocList, RocStr};
use crate::{max2, max3};

verus! {

/// The region `[offset, offset + size)` lies inside `mem`, and `mem` is an
/// artifact memory: at most 32-bit addressable.
pub open spec fn in_bounds(mem: Seq<u8>, offset: int, size: nat) -> bool {
    &&& 0 <= offset
    &&& offset + size <= mem.len()
    &&& mem.len() <= 0xFFFF_FFFF
}

/// `size` rounded up to the next multiple of `align`: the actual padded
/// width a field occupies inside a tuple.
pub open spec fn round_up_to_align(size: nat, align: nat) -> nat {
    if align == 0 {
        size
    } else if size % align == 0 {
        size
    } else {
        (size + (align - size % align)) as nat
    }
}

/// The typed decoding protocol. An implementation fixes the encoded size
/// and alignment of `Self` in the artifact's memory, says when a region
/// holds a well-formed encoding (`decodable`), and what value that
/// encoding denotes (`decoded_view`). `decode` reconstructs the value.
pub trait FromWasmMemory: View + Sized {
    /// Encoded size of `Self` in the artifact's memory, in bytes.
    spec fn size_of_wasm() -> nat;

    /// Required alignment of `Self` in the artifact's memory.
    spec fn align_of_wasm() -> nat;

    /// The bytes at `offset` hold a well-formed encoding of a `Self`.
    spec fn decodable(mem: Seq<u8>, offset: int) -> bool;

    /// The value denoted by the encoding at `offset`, as a view.
    spec fn decoded_view(mem: Seq<u8>, offset: int) -> Self::V;

    /// A well-formed encoding always lies inside the 32-bit address space,
    /// and so do the type's size and alignment.
    proof fn decodable_facts(mem: Seq<u8>, offset: int)
        requires
            Self::decodable(mem, offset),
        ensures
            in_bounds(mem, offset, Self::size_of_wasm()),
            Self::align_of_wasm() <= 0xFFFF_FFFF,
    ;

    /// Executable mirror of [`Self::size_of_wasm`].
    fn wasm_size() -> (n: usize)
        requires
            Self::size_of_wasm() <= usize::MAX,
        ensures
            n == Self::size_of_wasm(),
    ;

    /// Executable mirror of [`Self::align_of_wasm`].
    fn wasm_align() -> (n: usize)
        requires
            Self::align_of_wasm() <= usize::MAX,
        ensures
            n == Self::align_of_wasm(),
    ;

    /// Reconstruct the value encoded at `offset`.
    fn decode(memory: &Memory, offset: u32) -> (r: Self)
        requires
            Self::decodable(memory@, offset as int),
        ensures
            r@ == Self::decoded_view(memory@, offset as int),
    ;
}

/// Executable padded width of `T`: [`round_up_to_align`] of its size and
/// alignment.
pub fn wasm_actual_width<T: FromWasmMemory>() -> (n: usize)
    requires
        T::size_of_wasm() <= usize::MAX,
        T::align_of_wasm() <= usize::MAX,
        round_up_to_align(T::size_of_wasm(), T::align_of_wasm()) <= usize::MAX,
    ensures
        n == round_up_to_align(T::size_of_wasm(), T::align_of_wasm()),
{
    let size = T::wasm_size();
    let align = T::wasm_align();
    if align == 0 {
        size
    } else {
        let rem = size % align;
        if rem == 0 {
            size
        } else {
            size + (align - rem)
        }
    }
}

/// The two-byte little-endian value at `offset`.
fn read_le_u16(memory: &Memory, offset: u32) -> (x: u16)
    requires
        in_bounds(memory@, offset as int, 2),
    ensures
        x == spec_u16_from_le_bytes(memory@.subrange(offset as int, offset + 2)),
{
    let v = memory.read_bytes(offset, 2);
    u16_from_le_bytes(v.as_slice())
}

/// The four-byte little-endian value at `offset`.
fn read_le_u32(memory: &Memory, offset: u32) -> (x: u32)
    requires
        in_bounds(memory@, offset as int, 4),
    ensures
        x == spec_u32_from_le_bytes(memory@.subrange(offset as int, offset + 4)),
{
    let v = memory.read_bytes(offset, 4);
    u32_from_le_bytes(v.as_slice())
}

/// The eight-byte little-endian value at `offset`.
fn read_le_u64(memory: &Memory, offset: u32) -> (x: u64)
    requires
        in_bounds(memory@, offset as int, 8),
    ensures
        x == spec_u64_from_le_bytes(memory@.subrange(offset as int, offset + 8)),
{
    let v = memory.read_bytes(offset, 8);
    u64_from_le_bytes(v.as_slice())
}

/// The sixteen-byte little-endian value at `offset`.
fn read_le_u128(memory: &Memory, offset: u32) -> (x: u128)
    requires
        in_bounds(memory@, offset as int, 16),
    ensures
        x == spec_u128_from_le_bytes(memory@.subrange(offset as int, offset + 16)),
{
    let v = memory.read_bytes(offset, 16);
    u128_from_le_bytes(v.as_slice())
}

/// The signed value with `v`'s eight-bit two's-complement pattern.
pub open spec fn to_signed_8(v: u8) -> i8 {
    if v < 0x80 {
        v as i8
    } else {
        (v - 0x100) as i8
    }
}

/// The signed value with `v`'s sixteen-bit two's-complement pattern.
pub open spec fn to_signed_16(v: u16) -> i16 {
    if v < 0x8000 {
        v as i16
    } else {
        (v - 0x1_0000) as i16
    }
}

/// The signed value with `v`'s 32-bit two's-complement pattern.
pub open spec fn to_signed_32(v: u32) -> i32 {
    if v < 0x8000_0000 {
        v as i32
    } else {
        (v - 0x1_0000_0000) as i32
    }
}

/// The signed value with `v`'s 64-bit two's-complement pattern.
pub open spec fn to_signed_64(v: u64) -> i64 {
    if v < 0x8000_0000_0000_0000 {
        v as i64
    } else {
        (v - 0x1_0000_0000_0000_0000) as i64
    }
}

/// The signed value with `v`'s 128-bit two's-complement pattern.
pub open spec fn to_signed_128(v: u128) -> i128 {
    if v < 0x8000_0000_0000_0000_0000_0000_0000_0000 {
        v as i128
    } else {
        (v - 0x1_0000_0000_0000_0000_0000_0000_0000_0000) as i128
    }
}

fn signed_8(v: u8) -> (r: i8)
    ensures
        r == to_signed_8(v),
{
    if v < 0x80 {
        v as i8
    } else {
        ((v - 0x80) as i8) + i8::MIN
    }
}

fn signed_16(v: u16) -> (r: i16)
    ensures
        r == to_signed_16(v),
{
    if v < 0x8000 {
        v as i16
    } else {
        ((v - 0x8000) as i16) + i16::MIN
    }
}

fn signed_32(v: u32) -> (r: i32)
    ensures
        r == to_signed_32(v),
{
    if v < 0x8000_0000 {
        v as i32
    } else {
        ((v - 0x8000_0000) as i32) + i32::MIN
    }
}

fn signed_64(v: u64) -> (r: i64)
    ensures
        r == to_signed_64(v),
{
    if v < 0x8000_0000_0000_0000 {
        v as i64
    } else {
        ((v - 0x8000_0000_0000_0000) as i64) + i64::MIN
    }
}

fn signed_128(v: u128) -> (r: i128)
    ensures
        r == to_signed_128(v),
{
    if v < 0x8000_0000_0000_0000_0000_0000_0000_0000 {
        v as i128
    } else {
        ((v - 0x8000_0000_0000_0000_0000_0000_0000_0000) as i128) + i128::MIN
    }
}

impl FromWasmMemory for u8 {
    open spec fn size_of_wasm() -> nat {
        1
    }

    open spec fn align_of_wasm() -> nat {
        1
    }

    open spec fn decodable(mem: Seq<u8>, offset: int) -> bool {
        in_bounds(mem, offset, 1)
    }

    open spec fn decoded_view(mem: Seq<u8>, offset: int) -> u8 {
        mem[offset]
    }

    proof fn decodable_facts(mem: Seq<u8>, offset: int) {
    }

    fn wasm_size() -> usize {
        1
    }

    fn wasm_align() -> usize {
        1
    }

    fn decode(memory: &Memory, offset: u32) -> u8 {
        memory.read_u8(offset)
    }
}

impl FromWasmMemory for u16 {
    open spec fn size_of_wasm() -> nat {
        2
    }

    open spec fn align_of_wasm() -> nat {
        2
    }

    open spec fn decodable(mem: Seq<u8>, offset: int) -> bool {
        in_bounds(mem, offset, 2)
    }

    open spec fn decoded_view(mem: Seq<u8>, offset: int) -> u16 {
        spec_u16_from_le_bytes(mem.subrange(offset, offset + 2))
    }

    proof fn decodable_facts(mem: Seq<u8>, offset: int) {
    }

    fn wasm_size() -> usize {
        2
    }

    fn wasm_align() -> usize {
        2
    }

    fn decode(memory: &Memory, offset: u32) -> u16 {
        read_le_u16(memory, offset)
    }
}

impl FromWasmMemory for u32 {
    open spec fn size_of_wasm() -> nat {
        4
    }

    open spec fn align_of_wasm() -> nat {
        4
    }

    open spec fn decodable(mem: Seq<u8>, offset: int) -> bool {
        in_bounds(mem, offset, 4)
    }

    open spec fn decoded_view(mem: Seq<u8>, offset: int) -> u32 {
        spec_u32_from_le_bytes(mem.subrange(offset, offset + 4))
    }

    proof fn decodable_facts(mem: Seq<u8>, offset: int) {
    }

    fn wasm_size() -> usize {
        4
    }

    fn wasm_align() -> usize {
        4
    }

    fn decode(memory: &Memory, offset: u32) -> u32 {
        read_le_u32(memory, offset)
    }
}

impl FromWasmMemory for u64 {
    open spec fn size_of_wasm() -> nat {
        8
    }

    open spec fn align_of_wasm() -> nat {
        8
    }

    open spec fn decodable(mem: Seq<u8>, offset: int) -> bool {
        in_bounds(mem, offset, 8)
    }

    open spec fn decoded_view(mem: Seq<u8>, offset: int) -> u64 {
        spec_u64_from_le_bytes(mem.subrange(offset, offset + 8))
    }

    proof fn decodable_facts(mem: Seq<u8>, offset: int) {
    }

    fn wasm_size() -> usize {
        8
    }

    fn wasm_align() -> usize {
        8
    }

    fn decode(memory: &Memory, offset: u32) -> u64 {
        read_le_u64(memory, offset)
    }
}

impl FromWasmMemory for u128 {
    open spec fn size_of_wasm() -> nat {
        16
    }

    open spec fn align_of_wasm() -> nat {
        16
    }

    open spec fn decodable(mem: Seq<u8>, offset: int) -> bool {
        in_bounds(mem, offset, 16)
    }

    open spec fn decoded_view(mem: Seq<u8>, offset: int) -> u128 {
        spec_u128_from_le_bytes(mem.subrange(offset, offset + 16))
    }

    proof fn decodable_facts(mem: Seq<u8>, offset: int) {
    }

    fn wasm_size() -> usize {
        16
    }

    fn wasm_align() -> usize {
        16
    }

    fn decode(memory: &Memory, offset: u32) -> u128 {
        read_le_u128(memory, offset)
    }
}

impl FromWasmMemory for i8 {
    open spec fn size_of_wasm() -> nat {
        1
    }

    open spec fn align_of_wasm() -> nat {
        1
    }

    open spec fn decodable(mem: Seq<u8>, offset: int) -> bool {
        in_bounds(mem, offset, 1)
    }

    open spec fn decoded_view(mem: Seq<u8>, offset: int) -> i8 {
        to_signed_8(mem[offset])
    }

    proof fn decodable_facts(mem: Seq<u8>, offset: int) {
    }

    fn wasm_size() -> usize {
        1
    }

    fn wasm_align() -> usize {
        1
    }

    fn decode(memory: &Memory, offset: u32) -> i8 {
        signed_8(memory.read_u8(offset))
    }
}

impl FromWasmMemory for i16 {
    open spec fn size_of_wasm() -> nat {
        2
    }

    open spec fn align_of_wasm() -> nat {
        2
    }

    open spec fn decodable(mem: Seq<u8>, offset: int) -> bool {
        in_bounds(mem, offset, 2)
    }

    open spec fn decoded_view(mem: Seq<u8>, offset: int) -> i16 {
        to_signed_16(spec_u16_from_le_bytes(mem.subrange(offset, offset + 2)))
    }

    proof fn decodable_facts(mem: Seq<u8>, offset: int) {
    }

    fn wasm_size() -> usize {
        2
    }

    fn wasm_align() -> usize {
        2
    }

    fn decode(memory: &Memory, offset: u32) -> i16 {
        signed_16(read_le_u16(memory, offset))
    }
}

impl FromWasmMemory for i32 {
    open spec fn size_of_wasm() -> nat {
        4
    }

    open spec fn align_of_wasm() -> nat {
        4
    }

    open spec fn decodable(mem: Seq<u8>, offset: int) -> bool {
        in_bounds(mem, offset, 4)
    }

    open spec fn decoded_view(mem: Seq<u8>, offset: int) -> i32 {
        to_signed_32(spec_u32_from_le_bytes(mem.subrange(offset, offset + 4)))
    }

    proof fn decodable_facts(mem: Seq<u8>, offset: int) {
    }

    fn wasm_size() -> usize {
        4
    }

    fn wasm_align() -> usize {
        4
    }

    fn decode(memory: &Memory, offset: u32) -> i32 {
        signed_32(read_le_u32(memory, offset))
    }
}

impl FromWasmMemory for i64 {
    open spec fn size_of_wasm() -> nat {
        8
    }

    open spec fn align_of_wasm() -> nat {
        8
    }

    open spec fn decodable(mem: Seq<u8>, offset: int) -> bool {
        in_bounds(mem, offset, 8)
    }

    open spec fn decoded_view(mem: Seq<u8>, offset: int) -> i64 {
        to_signed_64(spec_u64_from_le_bytes(mem.subrange(offset, offset + 8)))
    }

    proof fn decodable_facts(mem: Seq<u8>, offset: int) {
    }

    fn wasm_size() -> usize {
        8
    }

    fn wasm_align() -> usize {
        8
    }

    fn decode(memory: &Memory, offset: u32) -> i64 {
        signed_64(read_le_u64(memory, offset))
    }
}

impl FromWasmMemory for i128 {
    open spec fn size_of_wasm() -> nat {
        16
    }

    open spec fn align_of_wasm() -> nat {
        16
    }

    open spec fn decodable(mem: Seq<u8>, offset: int) -> bool {
        in_bounds(mem, offset, 16)
    }

    open spec fn decoded_view(mem: Seq<u8>, offset: int) -> i128 {
        to_signed_128(spec_u128_from_le_bytes(mem.subrange(offset, offset + 16)))
    }

    proof fn decodable_facts(mem: Seq<u8>, offset: int) {
    }

    fn wasm_size() -> usize {
        16
    }

    fn wasm_align() -> usize {
        16
    }

    fn decode(memory: &Memory, offset: u32) -> i128 {
        signed_128(read_le_u128(memory, offset))
    }
}

impl FromWasmMemory for bool {
    open spec fn size_of_wasm() -> nat {
        1
    }

    open spec fn align_of_wasm() -> nat {
        1
    }

    /// Only the two canonical byte patterns encode a boolean: anything
    /// else is a decode mismatch, rejected rather than misread.
    open spec fn decodable(mem: Seq<u8>, offset: int) -> bool {
        &&& in_bounds(mem, offset, 1)
        &&& (mem[offset] == 0 || mem[offset] == 1)
    }

    open spec fn decoded_view(mem: Seq<u8>, offset: int) -> bool {
        mem[offset] == 1
    }

    proof fn decodable_facts(mem: Seq<u8>, offset: int) {
    }

    fn wasm_size() -> usize {
        1
    }

    fn wasm_align() -> usize {
        1
    }

    fn decode(memory: &Memory, offset: u32) -> bool {
        memory.read_u8(offset) == 1
    }
}

impl FromWasmMemory for usize {
    open spec fn size_of_wasm() -> nat {
        4
    }

    open spec fn align_of_wasm() -> nat {
        4
    }

    open spec fn decodable(mem: Seq<u8>, offset: int) -> bool {
        in_bounds(mem, offset, 4)
    }

    /// Pointer-sized values in the artifact are 32-bit.
    open spec fn decoded_view(mem: Seq<u8>, offset: int) -> usize {
        spec_u32_from_le_bytes(mem.subrange(offset, offset + 4)) as usize
    }

    proof fn decodable_facts(mem: Seq<u8>, offset: int) {
    }

    fn wasm_size() -> usize {
        4
    }

    fn wasm_align() -> usize {
        4
    }

    fn decode(memory: &Memory, offset: u32) -> usize {
        read_le_u32(memory, offset) as usize
    }
}

impl FromWasmMemory for () {
    open spec fn size_of_wasm() -> nat {
        0
    }

    open spec fn align_of_wasm() -> nat {
        0
    }

    open spec fn decodable(mem: Seq<u8>, offset: int) -> bool {
        in_bounds(mem, offset, 0)
    }

    open spec fn decoded_view(mem: Seq<u8>, offset: int) -> () {
        ()
    }

    proof fn decodable_facts(mem: Seq<u8>, offset: int) {
    }

    fn wasm_size() -> usize {
        0
    }

    fn wasm_align() -> usize {
        0
    }

    fn decode(memory: &Memory, offset: u32) -> () {
        ()
    }
}

/// Strings and lists share an eight-byte header: the value read
/// little-endian from the eight bytes at `offset`.
pub open spec fn str_header(mem: Seq<u8>, offset: int) -> u64 {
    spec_u64_from_le_bytes(mem.subrange(offset, offset + 8))
}

/// The header's high half: a length (for a small string, its sign bit is
/// set and the length lives elsewhere).
pub open spec fn header_length(h: u64) -> u64 {
    h >> 32
}

/// The header's low half: a pointer to the element region.
pub open spec fn header_elements(h: u64) -> u64 {
    h & 0xFFFF_FFFF
}

/// The sign bit of the header's high half marks a small string, stored
/// inline in the header itself.
pub open spec fn is_small_string(h: u64) -> bool {
    header_length(h) >= 0x8000_0000
}

/// A small string's true length: the header's last byte with the sign bit
/// cleared.
pub open spec fn small_string_length(h: u64) -> u64 {
    (h >> 56) & 0x7F
}

/// The content bytes that the string encoding at `offset` denotes: empty,
/// inline (small string), or read from the pointed-to region.
pub open spec fn str_content(mem: Seq<u8>, offset: int) -> Seq<u8> {
    let h = str_header(mem, offset);
    if header_length(h) == 0 {
        Seq::empty()
    } else if is_small_string(h) {
        mem.subrange(offset, offset + small_string_length(h))
    } else {
        mem.subrange(header_elements(h) as int, header_elements(h) + header_length(h))
    }
}

/// The eight header bytes at `offset`, related back to the fields of the
/// header value they encode.
fn read_str_header(memory: &Memory, offset: u32) -> (h: u64)
    requires
        in_bounds(memory@, offset as int, 8),
    ensures
        h == str_header(memory@, offset as int),
        memory@[offset + 7] == ((h >> 56) & 0xFF) as u8,
        header_length(h) <= 0xFFFF_FFFF,
        header_elements(h) <= 0xFFFF_FFFF,
{
    let h = read_le_u64(memory, offset);
    proof {
        lemma_auto_spec_u64_to_from_le_bytes();
        spec_u64_to_le_bytes_to_open(h);
        let s = memory@.subrange(offset as int, offset as int + 8);
        assert(s[7] == memory@[offset + 7]);
        assert(h >> 32 <= 0xFFFF_FFFF && (h & 0xFFFF_FFFF) <= 0xFFFF_FFFF) by (bit_vector);
    }
    h
}

impl FromWasmMemory for RocStr {
    open spec fn size_of_wasm() -> nat {
        8
    }

    open spec fn align_of_wasm() -> nat {
        4
    }

    open spec fn decodable(mem: Seq<u8>, offset: int) -> bool {
        &&& in_bounds(mem, offset, 8)
        &&& {
            let h = str_header(mem, offset);
            if header_length(h) == 0 {
                true
            } else if is_small_string(h) {
                small_string_length(h) <= 7
            } else {
                header_elements(h) + header_length(h) <= mem.len()
            }
        }
    }

    open spec fn decoded_view(mem: Seq<u8>, offset: int) -> Seq<u8> {
        str_content(mem, offset)
    }

    proof fn decodable_facts(mem: Seq<u8>, offset: int) {
    }

    fn wasm_size() -> usize {
        8
    }

    fn wasm_align() -> usize {
        4
    }

    fn decode(memory: &Memory, offset: u32) -> (r: RocStr) {
        let h = read_str_header(memory, offset);
        let length = (h >> 32) as u32;
        if length == 0 {
            RocStr::empty()
        } else if length >= 0x8000_0000 {
            // Small string: the bytes live inline in the header itself.
            let last = memory.read_u8(offset + 7);
            let n = (last ^ 0x80) as usize;
            proof {
                assert(h >> 32 >= 0x8000_0000 ==> ((h >> 56) & 0xFF) ^ 0x80 == (h >> 56) & 0x7F)
                    by (bit_vector);
                assert((((h >> 56) & 0xFF) as u8) ^ 0x80 == (((h >> 56) & 0xFF) ^ 0x80) as u8)
                    by (bit_vector);
            }
            RocStr::from_bytes(memory.read_bytes(offset, n))
        } else {
            // Big string: the high half is the length, the low half points
            // at the content bytes.
            let elements = (h & 0xFFFF_FFFF) as u32;
            RocStr::from_bytes(memory.read_bytes(elements, length as usize))
        }
    }
}

/// Decode a string after checking at run time that the region holds a
/// well-formed encoding: a mismatched or truncated encoding comes back
/// as `None` instead of being misread.
pub fn try_decode_str(memory: &Memory, offset: u32) -> (r: Option<RocStr>)
    ensures
        r is Some <==> <RocStr as FromWasmMemory>::decodable(memory@, offset as int),
        r matches Some(s) ==> s@ == str_content(memory@, offset as int),
{
    let len = memory.len();
    if len > 0xFFFF_FFFFusize {
        return None;
    }
    if offset as u64 + 8 > len as u64 {
        return None;
    }
    let h = read_str_header(memory, offset);
    let length = (h >> 32) as u32;
    if length == 0 {
        Some(RocStr::empty())
    } else if length >= 0x8000_0000 {
        let last = memory.read_u8(offset + 7);
        let n = (last ^ 0x80) as usize;
        proof {
            assert(h >> 32 >= 0x8000_0000 ==> ((h >> 56) & 0xFF) ^ 0x80 == (h >> 56) & 0x7F)
                by (bit_vector);
            assert((((h >> 56) & 0xFF) as u8) ^ 0x80 == (((h >> 56) & 0xFF) ^ 0x80) as u8)
                by (bit_vector);
        }
        proof {
            assert((h >> 56) & 0x7F <= 0xFF) by (bit_vector);
            assert(n == small_string_length(h));
        }
        if n > 7 {
            None
        } else {
            proof {
                assert(<RocStr as FromWasmMemory>::decodable(memory@, offset as int));
            }
            Some(RocStr::from_bytes(memory.read_bytes(offset, n)))
        }
    } else {
        let elements = (h & 0xFFFF_FFFF) as u32;
        if elements as u64 + length as u64 > len as u64 {
            None
        } else {
            proof {
                assert(<RocStr as FromWasmMemory>::decodable(memory@, offset as int));
            }
            Some(RocStr::from_bytes(memory.read_bytes(elements, length as usize)))
        }
    }
}

impl<T: FromWasmMemory> FromWasmMemory for RocList<T> {
    open spec fn size_of_wasm() -> nat {
        8
    }

    open spec fn align_of_wasm() -> nat {
        4
    }

    open spec fn decodable(mem: Seq<u8>, offset: int) -> bool {
        &&& in_bounds(mem, offset, 8)
        &&& {
            let h = str_header(mem, offset);
            forall|i: int|
                0 <= i < header_length(h) ==> #[trigger] T::decodable(
                    mem,
                    header_elements(h) + i * T::size_of_wasm(),
                )
        }
    }

    open spec fn decoded_view(mem: Seq<u8>, offset: int) -> Seq<T::V> {
        let h = str_header(mem, offset);
        Seq::new(
            header_length(h) as nat,
            |i: int| T::decoded_view(mem, header_elements(h) + i * T::size_of_wasm()),
        )
    }

    proof fn decodable_facts(mem: Seq<u8>, offset: int) {
    }

    fn wasm_size() -> usize {
        8
    }

    fn wasm_align() -> usize {
        4
    }

    fn decode(memory: &Memory, offset: u32) -> (r: RocList<T>) {
        let ghost m = memory@;
        let ghost h_spec = str_header(m, offset as int);
        let h = read_str_header(memory, offset);
        let length = (h >> 32) as u32;
        let elements = (h & 0xFFFF_FFFF) as u32;
        let mut items: Vec<T> = Vec::new();
        if length == 0 {
            let l = RocList::from_vec(items);
            proof {
                assert(l@ =~= Self::decoded_view(m, offset as int));
            }
            return l;
        }
        proof {
            assert(T::decodable(m, header_elements(h_spec) + 0 * T::size_of_wasm()));
            T::decodable_facts(m, header_elements(h_spec) + 0 * T::size_of_wasm());
        }
        let size_t = T::wasm_size();
        let mut i: u32 = 0;
        while i < length
            invariant
                memory@ == m,
                h_spec == str_header(m, offset as int),
                length == header_length(h_spec),
                elements == header_elements(h_spec),
                size_t == T::size_of_wasm(),
                forall|k: int|
                    0 <= k < length ==> #[trigger] T::decodable(
                        m,
                        elements + k * T::size_of_wasm(),
                    ),
                i <= length,
                items@.len() == i,
                forall|k: int|
                    0 <= k < i ==> items@[k]@ == #[trigger] T::decoded_view(
                        m,
                        elements + k * T::size_of_wasm(),
                    ),
            decreases length - i,
        {
            proof {
                assert(T::decodable(m, elements + i * T::size_of_wasm()));
                T::decodable_facts(m, elements + i * T::size_of_wasm());
                assert(elements + i * size_t + size_t <= 0xFFFF_FFFF);
            }
            let off = elements + i * (size_t as u32);
            let item = T::decode(memory, off);
            items.push(item);
            i = i + 1;
        }
        let l = RocList::from_vec(items);
        proof {
            assert(l@ =~= Self::decoded_view(m, offset as int));
        }
        l
    }
}

impl<T: FromWasmMemory, U: FromWasmMemory> FromWasmMemory for (T, U) {
    open spec fn size_of_wasm() -> nat {
        T::size_of_wasm() + U::size_of_wasm()
    }

    open spec fn align_of_wasm() -> nat {
        if T::size_of_wasm() > U::size_of_wasm() {
            T::size_of_wasm()
        } else {
            U::size_of_wasm()
        }
    }

    /// Field alignments must not increase left to right: handling the
    /// padding that increasing alignments would demand is out of scope,
    /// so such a pair is simply not decodable.
    open spec fn decodable(mem: Seq<u8>, offset: int) -> bool {
        &&& T::align_of_wasm() >= U::align_of_wasm()
        &&& T::decodable(mem, offset)
        &&& U::decodable(
            mem,
            offset + round_up_to_align(T::size_of_wasm(), T::align_of_wasm()),
        )
    }

    open spec fn decoded_view(mem: Seq<u8>, offset: int) -> (T::V, U::V) {
        (
            T::decoded_view(mem, offset),
            U::decoded_view(
                mem,
                offset + round_up_to_align(T::size_of_wasm(), T::align_of_wasm()),
            ),
        )
    }

    proof fn decodable_facts(mem: Seq<u8>, offset: int) {
        T::decodable_facts(mem, offset);
        U::decodable_facts(
            mem,
            offset + round_up_to_align(T::size_of_wasm(), T::align_of_wasm()),
        );
        assert(round_up_to_align(T::size_of_wasm(), T::align_of_wasm()) >= T::size_of_wasm());
    }

    fn wasm_size() -> usize {
        T::wasm_size() + U::wasm_size()
    }

    fn wasm_align() -> usize {
        max2(T::wasm_size(), U::wasm_size())
    }

    fn decode(memory: &Memory, offset: u32) -> (r: (T, U)) {
        let ghost m = memory@;
        let ghost aw = round_up_to_align(T::size_of_wasm(), T::align_of_wasm());
        proof {
            T::decodable_facts(m, offset as int);
            U::decodable_facts(m, offset + aw);
            assert(aw >= T::size_of_wasm());
        }
        let width = wasm_actual_width::<T>();
        let t = T::decode(memory, offset);
        let u = U::decode(memory, offset + width as u32);
        (t, u)
    }
}

impl<T: FromWasmMemory, U: FromWasmMemory, V: FromWasmMemory> FromWasmMemory for (T, U, V) {
    open spec fn size_of_wasm() -> nat {
        T::size_of_wasm() + U::size_of_wasm() + V::size_of_wasm()
    }

    open spec fn align_of_wasm() -> nat {
        let a = if T::size_of_wasm() > U::size_of_wasm() {
            T::size_of_wasm()
        } else {
            U::size_of_wasm()
        };
        if a > V::size_of_wasm() {
            a
        } else {
            V::size_of_wasm()
        }
    }

    /// As for pairs: alignments must not increase left to right.
    open spec fn decodable(mem: Seq<u8>, offset: int) -> bool {
        &&& T::align_of_wasm() >= U::align_of_wasm()
        &&& U::align_of_wasm() >= V::align_of_wasm()
        &&& T::decodable(mem, offset)
        &&& U::decodable(
            mem,
            offset + round_up_to_align(T::size_of_wasm(), T::align_of_wasm()),
        )
        &&& V::decodable(
            mem,
            offset + round_up_to_align(T::size_of_wasm(), T::align_of_wasm())
                + round_up_to_align(U::size_of_wasm(), U::align_of_wasm()),
        )
    }

    open spec fn decoded_view(mem: Seq<u8>, offset: int) -> (T::V, U::V, V::V) {
        (
            T::decoded_view(mem, offset),
            U::decoded_view(
                mem,
                offset + round_up_to_align(T::size_of_wasm(), T::align_of_wasm()),
            ),
            V::decoded_view(
                mem,
                offset + round_up_to_align(T::size_of_wasm(), T::align_of_wasm())
                    + round_up_to_align(U::size_of_wasm(), U::align_of_wasm()),
            ),
        )
    }

    proof fn decodable_facts(mem: Seq<u8>, offset: int) {
        let aw_t = round_up_to_align(T::size_of_wasm(), T::align_of_wasm());
        let aw_u = round_up_to_align(U::size_of_wasm(), U::align_of_wasm());
        T::decodable_facts(mem, offset);
        U::decodable_facts(mem, offset + aw_t);
        V::decodable_facts(mem, offset + aw_t + aw_u);
        assert(aw_t >= T::size_of_wasm());
        assert(aw_u >= U::size_of_wasm());
    }

    fn wasm_size() -> usize {
        T::wasm_size() + U::wasm_size() + V::wasm_size()
    }

    fn wasm_align() -> usize {
        max3(T::wasm_size(), U::wasm_size(), V::wasm_size())
    }

    fn decode(memory: &Memory, offset: u32) -> (r: (T, U, V)) {
        let ghost m = memory@;
        let ghost aw_t = round_up_to_align(T::size_of_wasm(), T::align_of_wasm());
        let ghost aw_u = round_up_to_align(U::size_of_wasm(), U::align_of_wasm());
        proof {
            T::decodable_facts(m, offset as int);
            U::decodable_facts(m, offset + aw_t);
            V::decodable_facts(m, offset + aw_t + aw_u);
            assert(aw_t >= T::size_of_wasm());
            assert(aw_u >= U::size_of_wasm());
        }
        let width_t = wasm_actual_width::<T>();
        let width_u = wasm_actual_width::<U>();
        let t = T::decode(memory, offset);
        let u = U::decode(memory, offset + width_t as u32);
        let v = V::decode(memory, offset + width_t as u32 + width_u as u32);
        (t, u, v)
    }
}

/// Decode a pair after checking the alignment precondition at run time:
/// increasing field alignments are a decoder usage error, reported as
/// `None` before any byte of the fields is read.
pub fn try_decode_pair<T: FromWasmMemory, U: FromWasmMemory>(memory: &Memory, offset: u32) -> (r:
    Option<(T, U)>)
    requires
        T::decodable(memory@, offset as int),
        U::decodable(
            memory@,
            offset + round_up_to_align(T::size_of_wasm(), T::align_of_wasm()),
        ),
    ensures
        T::align_of_wasm() >= U::align_of_wasm() ==> (r matches Some(p) && p@
            == <(T, U) as FromWasmMemory>::decoded_view(memory@, offset as int)),
        T::align_of_wasm() < U::align_of_wasm() ==> r is None,
{
    proof {
        T::decodable_facts(memory@, offset as int);
        U::decodable_facts(
            memory@,
            offset + round_up_to_align(T::size_of_wasm(), T::align_of_wasm()),
        );
    }
    let align_t = T::wasm_align();
    let align_u = U::wasm_align();
    if align_t >= align_u {
        Some(<(T, U) as FromWasmMemory>::decode(memory, offset))
    } else {
        None
    }
}

/// Decode a triple after checking the alignment precondition at run time,
/// as [`try_decode_pair`] does for pairs.
pub fn try_decode_triple<T: FromWasmMemory, U: FromWasmMemory, V: FromWasmMemory>(
    memory: &Memory,
    offset: u32,
) -> (r: Option<(T, U, V)>)
    requires
        T::decodable(memory@, offset as int),
        U::decodable(
            memory@,
            offset + round_up_to_align(T::size_of_wasm(), T::align_of_wasm()),
        ),
        V::decodable(
            memory@,
            offset + round_up_to_align(T::size_of_wasm(), T::align_of_wasm())
                + round_up_to_align(U::size_of_wasm(), U::align_of_wasm()),
        ),
    ensures
        T::align_of_wasm() >= U::align_of_wasm() && U::align_of_wasm() >= V::align_of_wasm()
            ==> (r matches Some(p) && p@ == <(T, U, V) as FromWasmMemory>::decoded_view(
            memory@,
            offset as int,
        )),
        !(T::align_of_wasm() >= U::align_of_wasm() && U::align_of_wasm() >= V::align_of_wasm())
            ==> r is None,
{
    proof {
        T::decodable_facts(memory@, offset as int);
        U::decodable_facts(
            memory@,
            offset + round_up_to_align(T::size_of_wasm(), T::align_of_wasm()),
        );
        V::decodable_facts(
            memory@,
            offset + round_up_to_align(T::size_of_wasm(), T::align_of_wasm())
                + round_up_to_align(U::size_of_wasm(), U::align_of_wasm()),
        );
    }
    let align_t = T::wasm_align();
    let align_u = U::wasm_align();
    let align_v = V::wasm_align();
    if align_t >= align_u && align_u >= align_v {
        Some(<(T, U, V) as FromWasmMemory>::decode(memory, offset))
    } else {
        None
    }
}

/// Decode a reference to a single value: a four-byte pointer at
/// `offset`, followed exactly once. The result is an owned copy; the
/// artifact's backing memory is never exposed past this call.
pub fn decode_through_pointer<T: FromWasmMemory>(memory: &Memory, offset: u32) -> (r: T)
    requires
        in_bounds(memory@, offset as int, 4),
        T::decodable(
            memory@,
            spec_u32_from_le_bytes(memory@.subrange(offset as int, offset + 4)) as int,
        ),
    ensures
        r@ == T::decoded_view(
            memory@,
            spec_u32_from_le_bytes(memory@.subrange(offset as int, offset + 4)) as int,
        ),
{
    let target = read_le_u32(memory, offset);
    T::decode(memory, target)
}

/// Decode a fixed-size array: `count` elements sitting contiguously at
/// `offset` itself (no pointer indirection), copied out element-wise.
pub fn decode_array<T: FromWasmMemory>(memory: &Memory, offset: u32, count: u32) -> (v: Vec<T>)
    requires
        forall|i: int|
            0 <= i < count ==> #[trigger] T::decodable(
                memory@,
                offset + i * T::size_of_wasm(),
            ),
    ensures
        v@.len() == count,
        forall|i: int|
            0 <= i < count ==> v@[i]@ == #[trigger] T::decoded_view(
                memory@,
                offset + i * T::size_of_wasm(),
            ),
{
    let ghost m = memory@;
    let mut v: Vec<T> = Vec::new();
    if count == 0 {
        return v;
    }
    proof {
        assert(T::decodable(m, offset + 0 * T::size_of_wasm()));
        T::decodable_facts(m, offset + 0 * T::size_of_wasm());
    }
    let size_t = T::wasm_size();
    let mut i: u32 = 0;
    while i < count
        invariant
            memory@ == m,
            size_t == T::size_of_wasm(),
            forall|k: int|
                0 <= k < count ==> #[trigger] T::decodable(m, offset + k * T::size_of_wasm()),
            i <= count,
            v@.len() == i,
            forall|k: int|
                0 <= k < i ==> v@[k]@ == #[trigger] T::decoded_view(
                    m,
                    offset + k * T::size_of_wasm(),
                ),
        decreases count - i,
    {
        proof {
            assert(T::decodable(m, offset + i * T::size_of_wasm()));
            T::decodable_facts(m, offset + i * T::size_of_wasm());
            assert(offset + i * size_t + size_t <= 0xFFFF_FFFF);
        }
        let item = T::decode(memory, offset + i * (size_t as u32));
        v.push(item);
        i = i + 1;
    }
    v
}

/// An execution adapter hands back one address into the artifact's memory
/// whose first eight bytes are the call-result discriminant. Skip it and
/// decode the payload that follows.
pub fn decode_call_result<T: FromWasmMemory>(memory: &Memory, address: u32) -> (r: T)
    requires
        T::decodable(memory@, address + 8),
    ensures
        r@ == T::decoded_view(memory@, address + 8),
{
    proof {
        T::decodable_facts(memory@, address + 8);
    }
    T::decode(memory, address + 8)
}

} // verus!

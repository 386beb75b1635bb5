//! The decoding protocol's guarantees, stated on their own: round-trip
//! identity for primitives, the three string paths, length-exact list
//! decoding, and the tuple field layout.
use vstd::bytes::*;
use vstd::prelude::*;

use crate::decode::{
    FromWasmMemory, header_elements, header_length, in_bounds, is_small_string,
    round_up_to_align, small_string_length, str_header, to_signed_128, to_signed_16,
    to_signed_32, to_signed_64, to_signed_8,
};
use crate::values::{RocList, RocStr};

verus! {

/// A buffer holding a byte `x` at `offset` decodes to exactly `x`: the
/// decoder reproduces the artifact's own bit pattern.
pub proof fn lemma_round_trip_u8(mem: Seq<u8>, offset: int, x: u8)
    requires
        in_bounds(mem, offset, 1),
        mem[offset] == x,
    ensures
        u8::decodable(mem, offset),
        u8::decoded_view(mem, offset) == x,
{
}

/// A buffer holding the two little-endian bytes of `x` at `offset`
/// decodes to exactly `x`.
pub proof fn lemma_round_trip_u16(mem: Seq<u8>, offset: int, x: u16)
    requires
        in_bounds(mem, offset, 2),
        mem.subrange(offset, offset + 2) == spec_u16_to_le_bytes(x),
    ensures
        u16::decodable(mem, offset),
        u16::decoded_view(mem, offset) == x,
{
    lemma_auto_spec_u16_to_from_le_bytes();
    assert(spec_u16_to_le_bytes(x).len() == 2);
}

/// A buffer holding the four little-endian bytes of `x` at `offset`
/// decodes to exactly `x`.
pub proof fn lemma_round_trip_u32(mem: Seq<u8>, offset: int, x: u32)
    requires
        in_bounds(mem, offset, 4),
        mem.subrange(offset, offset + 4) == spec_u32_to_le_bytes(x),
    ensures
        u32::decodable(mem, offset),
        u32::decoded_view(mem, offset) == x,
{
    lemma_auto_spec_u32_to_from_le_bytes();
    assert(spec_u32_to_le_bytes(x).len() == 4);
}

/// A buffer holding the eight little-endian bytes of `x` at `offset`
/// decodes to exactly `x`.
pub proof fn lemma_round_trip_u64(mem: Seq<u8>, offset: int, x: u64)
    requires
        in_bounds(mem, offset, 8),
        mem.subrange(offset, offset + 8) == spec_u64_to_le_bytes(x),
    ensures
        u64::decodable(mem, offset),
        u64::decoded_view(mem, offset) == x,
{
    lemma_auto_spec_u64_to_from_le_bytes();
}

/// A buffer holding the sixteen little-endian bytes of `x` at `offset`
/// decodes to exactly `x`.
pub proof fn lemma_round_trip_u128(mem: Seq<u8>, offset: int, x: u128)
    requires
        in_bounds(mem, offset, 16),
        mem.subrange(offset, offset + 16) == spec_u128_to_le_bytes(x),
    ensures
        u128::decodable(mem, offset),
        u128::decoded_view(mem, offset) == x,
{
    lemma_auto_spec_u128_to_from_le_bytes();
    assert(spec_u128_to_le_bytes(x).len() == 16);
}

/// Signed decoding reads the same bit pattern as unsigned decoding and
/// reinterprets it in two's complement, for every width.
pub proof fn lemma_signed_reads_unsigned_pattern(mem: Seq<u8>, offset: int)
    requires
        in_bounds(mem, offset, 16),
    ensures
        i8::decoded_view(mem, offset) == to_signed_8(u8::decoded_view(mem, offset)),
        i16::decoded_view(mem, offset) == to_signed_16(u16::decoded_view(mem, offset)),
        i32::decoded_view(mem, offset) == to_signed_32(u32::decoded_view(mem, offset)),
        i64::decoded_view(mem, offset) == to_signed_64(u64::decoded_view(mem, offset)),
        i128::decoded_view(mem, offset) == to_signed_128(u128::decoded_view(mem, offset)),
{
}

/// A small string (sign bit of the length half set) is recovered from the
/// eight header bytes alone: its content is the leading inline bytes, at
/// most seven of them, and no pointer is followed.
pub proof fn lemma_small_string_decode(mem: Seq<u8>, offset: int)
    requires
        <RocStr as FromWasmMemory>::decodable(mem, offset),
        header_length(str_header(mem, offset)) != 0,
        is_small_string(str_header(mem, offset)),
    ensures
        small_string_length(str_header(mem, offset)) <= 7,
        <RocStr as FromWasmMemory>::decoded_view(mem, offset) == mem.subrange(
            offset,
            offset + small_string_length(str_header(mem, offset)),
        ),
{
}

/// A big string (sign bit unset, length nonzero) is read from the
/// pointed-to region: exactly `length` bytes starting at the pointer half
/// of the header.
pub proof fn lemma_big_string_decode(mem: Seq<u8>, offset: int)
    requires
        <RocStr as FromWasmMemory>::decodable(mem, offset),
        header_length(str_header(mem, offset)) != 0,
        !is_small_string(str_header(mem, offset)),
    ensures
        <RocStr as FromWasmMemory>::decoded_view(mem, offset) == mem.subrange(
            header_elements(str_header(mem, offset)) as int,
            header_elements(str_header(mem, offset)) + header_length(str_header(mem, offset)),
        ),
        <RocStr as FromWasmMemory>::decoded_view(mem, offset).len() == header_length(
            str_header(mem, offset),
        ),
{
}

/// A zero-length header decodes to the empty string.
pub proof fn lemma_empty_string_decode(mem: Seq<u8>, offset: int)
    requires
        <RocStr as FromWasmMemory>::decodable(mem, offset),
        header_length(str_header(mem, offset)) == 0,
    ensures
        <RocStr as FromWasmMemory>::decoded_view(mem, offset) == Seq::<u8>::empty(),
{
}

/// List decoding is length-exact: a zero-length list decodes to the empty
/// sequence, and a list of length `n` decodes to exactly `n` elements,
/// the `i`-th read at `pointer + i * size`.
pub proof fn lemma_list_decode_length_exact<T: FromWasmMemory>(mem: Seq<u8>, offset: int)
    requires
        <RocList<T> as FromWasmMemory>::decodable(mem, offset),
    ensures
        <RocList<T> as FromWasmMemory>::decoded_view(mem, offset).len() == header_length(
            str_header(mem, offset),
        ),
        header_length(str_header(mem, offset)) == 0
            ==> <RocList<T> as FromWasmMemory>::decoded_view(mem, offset) == Seq::<
            T::V,
        >::empty(),
        forall|i: int|
            0 <= i < header_length(str_header(mem, offset))
                ==> <RocList<T> as FromWasmMemory>::decoded_view(mem, offset)[i]
                == T::decoded_view(
                mem,
                header_elements(str_header(mem, offset)) + i * T::size_of_wasm(),
            ),
{
    assert(<RocList<T> as FromWasmMemory>::decoded_view(mem, offset).len() == header_length(
        str_header(mem, offset),
    ));
    if header_length(str_header(mem, offset)) == 0 {
        assert(<RocList<T> as FromWasmMemory>::decoded_view(mem, offset) =~= Seq::<
            T::V,
        >::empty());
    }
}

/// A field's padded width is a multiple of its alignment, at least its
/// size, and less than one alignment beyond it (the size itself when
/// the alignment is zero).
pub proof fn lemma_round_up_to_align(size: nat, align: nat)
    ensures
        round_up_to_align(size, align) >= size,
        align > 0 ==> round_up_to_align(size, align) % align == 0,
        align > 0 ==> round_up_to_align(size, align) < size + align,
{
    if align > 0 && size % align != 0 {
        let r = size % align;
        vstd::arithmetic::div_mod::lemma_fundamental_div_mod(size as int, align as int);
        assert(round_up_to_align(size, align) == (size / align + 1) * align) by (nonlinear_arith)
            requires
                align > 0,
                r == size % align,
                r != 0,
                size == align * (size / align) + r,
                round_up_to_align(size, align) == size + (align - r),
        ;
        vstd::arithmetic::div_mod::lemma_mod_multiples_basic(
            size as int / align as int + 1,
            align as int,
        );
    }
}

/// Tuple fields sit at increasing offsets: each field starts where the
/// previous one's padded width ends.
pub proof fn lemma_pair_field_offsets<T: FromWasmMemory, U: FromWasmMemory>(
    mem: Seq<u8>,
    offset: int,
)
    requires
        <(T, U) as FromWasmMemory>::decodable(mem, offset),
    ensures
        <(T, U) as FromWasmMemory>::decoded_view(mem, offset) == (
            T::decoded_view(mem, offset),
            U::decoded_view(
                mem,
                offset + round_up_to_align(T::size_of_wasm(), T::align_of_wasm()),
            ),
        ),
{
}

/// With fields of sizes 8, 4 and 1 (each its own alignment), the three
/// fields sit at offsets 0, 8 and 12.
pub proof fn lemma_triple_u64_u32_u8_offsets(mem: Seq<u8>, offset: int)
    requires
        <(u64, u32, u8) as FromWasmMemory>::decodable(mem, offset),
    ensures
        <(u64, u32, u8) as FromWasmMemory>::decoded_view(mem, offset) == (
            u64::decoded_view(mem, offset),
            u32::decoded_view(mem, offset + 8),
            u8::decoded_view(mem, offset + 12),
        ),
{
}

} // verus!

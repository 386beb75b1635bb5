//! A conformance harness for compiled programs of a small functional
//! language: the verified pieces of the pipeline that wraps a bare
//! expression into a module, triages compiler diagnostics into fatal and
//! delayed ones, and decodes the raw output memory of an executed artifact
//! back into structured host values.
//!
//! The decoder works against [`memory::Memory`], a byte-for-byte model of
//! the artifact's 32-bit linear memory; the unverifiable outer shell
//! (driving the external compiler, loading dynamic libraries, running the
//! sandboxed interpreter) hands the library plain bytes and plain problem
//! lists and takes plain values back.
use vstd::prelude::*;

pub mod decode;
pub mod laws;
pub mod memory;
pub mod normalize;
pub mod symbols;
pub mod triage;
pub mod values;

verus! {

/// Hands its argument back unchanged: the default transform applied to a
/// decoded value before it is compared against the expected one.
pub fn identity<T>(value: T) -> (r: T)
    ensures
        r == value,
{
    value
}

/// The larger of two encoded widths.
pub fn max2(a: usize, b: usize) -> (r: usize)
    ensures
        r == if a > b { a } else { b },
{
    if a > b {
        a
    } else {
        b
    }
}

/// The largest of three encoded widths.
pub fn max3(a: usize, b: usize, c: usize) -> (r: usize)
    ensures
        r == if a > b && a > c { a } else if b > c { b } else { c },
        r >= a && r >= b && r >= c,
{
    max2(max2(a, b), c)
}

} // verus!

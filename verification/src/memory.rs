//! A byte-for-byte model of the executed artifact's linear memory.
//!
//! The decoder only ever reads from this model; the outer shell fills it
//! with the raw bytes of the artifact's output region (for the sandboxed
//! 32-bit backend, a copy of the instance's exported linear memory) before
//! any decode call. Offsets are 32-bit, as in the artifact itself.
use vstd::prelude::*;

verus! {

/// How many bytes at `addr` come before the first NUL, scanning at most
/// `width` bytes: the length of a panic message stored as a C string.
pub open spec fn nul_free_prefix_len(mem: Seq<u8>, addr: int, width: nat) -> nat
    decreases width,
{
    if width == 0 {
        0
    } else if mem[addr] == 0 {
        0
    } else {
        1 + nul_free_prefix_len(mem, addr + 1, (width - 1) as nat)
    }
}

/// `nul_free_prefix_len` is pinned by its characterization: nothing
/// before it is a NUL, and it stops at a NUL or at `width`.
pub proof fn lemma_nul_free_prefix_at(mem: Seq<u8>, addr: int, width: nat, m: nat)
    requires
        m <= width,
        forall|k: int| 0 <= k < m ==> #[trigger] mem[addr + k] != 0,
        m < width ==> mem[addr + m] == 0,
    ensures
        nul_free_prefix_len(mem, addr, width) == m,
    decreases m, width,
{
    if width > 0 && m > 0 {
        assert(mem[addr + 0] != 0);
        assert forall|k: int| 0 <= k < m - 1 implies #[trigger] mem[(addr + 1) + k] != 0 by {
            assert(mem[addr + (k + 1)] != 0);
        }
        lemma_nul_free_prefix_at(mem, addr + 1, (width - 1) as nat, (m - 1) as nat);
    }
}

/// Read-only linear memory: the decoder's one source of bytes.
pub struct Memory {
    bytes: Vec<u8>,
}

impl View for Memory {
    type V = Seq<u8>;

    closed spec fn view(&self) -> Seq<u8> {
        self.bytes@
    }
}

impl Memory {
    /// Wrap a snapshot of an artifact's memory.
    pub fn new(bytes: Vec<u8>) -> (m: Memory)
        ensures
            m@ == bytes@,
    {
        Memory { bytes }
    }

    /// Number of addressable bytes.
    pub fn len(&self) -> (n: usize)
        ensures
            n == self@.len(),
    {
        self.bytes.len()
    }

    /// The single byte at `offset`.
    pub fn read_u8(&self, offset: u32) -> (b: u8)
        requires
            offset < self@.len(),
        ensures
            b == self@[offset as int],
    {
        self.bytes[offset as usize]
    }

    /// An owned copy of the `n` bytes starting at `offset`.
    pub fn read_bytes(&self, offset: u32, n: usize) -> (v: Vec<u8>)
        requires
            offset + n <= self@.len(),
        ensures
            v@ == self@.subrange(offset as int, offset + n),
    {
        let mut v: Vec<u8> = Vec::new();
        let total = self.bytes.len();
        let base = offset as usize;
        let mut i: usize = 0;
        while i < n
            invariant
                base == offset as int,
                total == self@.len(),
                base + n <= total,
                i <= n,
                v@ == self@.subrange(base as int, base + i),
            decreases n - i,
        {
            v.push(self.bytes[base + i]);
            i = i + 1;
            proof {
                assert(v@ =~= self@.subrange(base as int, base + i));
            }
        }
        proof {
            assert(v@ =~= self@.subrange(offset as int, offset + n));
        }
        v
    }

    /// The panic import stub hands over an address of a NUL-terminated
    /// message in the artifact's memory; recover its bytes with a
    /// bounded scan: stop at the first NUL, or after `width` bytes.
    pub fn read_c_string(&self, address: u32, width: u32) -> (v: Vec<u8>)
        requires
            address + width <= self@.len(),
        ensures
            v@ == self@.subrange(
                address as int,
                address + nul_free_prefix_len(self@, address as int, width as nat),
            ),
            v@.len() == nul_free_prefix_len(self@, address as int, width as nat),
    {
        let mut v: Vec<u8> = Vec::new();
        let total = self.bytes.len();
        let base = address as usize;
        let w = width as usize;
        let mut i: usize = 0;
        while i < w && self.bytes[base + i] != 0
            invariant
                base == address as int,
                w == width as int,
                total == self@.len(),
                base + w <= total,
                i <= w,
                v@ == self@.subrange(base as int, base + i),
                forall|k: int| 0 <= k < i ==> #[trigger] self@[base + k] != 0,
            decreases w - i,
        {
            v.push(self.bytes[base + i]);
            i = i + 1;
            proof {
                assert(v@ =~= self@.subrange(base as int, base + i));
            }
        }
        proof {
            lemma_nul_free_prefix_at(self@, address as int, width as nat, i as nat);
        }
        v
    }
}

} // verus!

//! The memory capability the emulator reads and writes through, its byte-level
//! model, and an in-memory implementation backed by a byte buffer.
use vstd::prelude::*;
use vstd::arithmetic::div_mod::{lemma_mod_breakdown, lemma_small_mod};
use vstd::arithmetic::power::pow;
use vstd::layout::{size_of, unsigned_int_max_values};

verus! {

/// Number of bytes in a machine word.
pub open spec fn word_bytes() -> nat {
    size_of::<usize>()
}

/// `256` to the power `n`.
pub open spec fn pow256(n: nat) -> nat
    decreases n,
{
    if n == 0 {
        1
    } else {
        256 * pow256((n - 1) as nat)
    }
}

/// Little-endian value of the `n` bytes of `m` starting at `addr`.
pub open spec fn le_value(m: Map<int, u8>, addr: int, n: nat) -> nat
    decreases n,
{
    if n == 0 {
        0
    } else {
        m[addr] as nat + 256 * le_value(m, addr + 1, (n - 1) as nat)
    }
}

/// `m` with the `n` bytes starting at `addr` replaced by the little-endian
/// digits of `v` (taken modulo `256^n`).
pub open spec fn store_le(m: Map<int, u8>, addr: int, v: nat, n: nat) -> Map<int, u8>
    decreases n,
{
    if n == 0 {
        m
    } else {
        store_le(m.insert(addr, (v % 256) as u8), addr + 1, v / 256, (n - 1) as nat)
    }
}

/// Every one of the `n` bytes starting at `addr` is present in `m`.
pub open spec fn accessible(m: Map<int, u8>, addr: int, n: nat) -> bool {
    forall|a: int| addr <= a < addr + n ==> #[trigger] m.dom().contains(a)
}

/// A machine word may be read or written at `addr`: it is naturally aligned
/// and all its bytes are present.
pub open spec fn word_accessible(m: Map<int, u8>, addr: usize) -> bool {
    &&& addr as int % word_bytes() as int == 0
    &&& accessible(m, addr as int, word_bytes())
}

/// An aligned 32-bit word may be read at `addr`.
pub open spec fn u32_accessible(m: Map<int, u8>, addr: usize) -> bool {
    &&& addr % 4 == 0
    &&& accessible(m, addr as int, 4)
}

/// The machine word stored at `addr`.
pub open spec fn word_at(m: Map<int, u8>, addr: usize) -> usize {
    le_value(m, addr as int, word_bytes()) as usize
}

/// The 32-bit word stored at `addr`.
pub open spec fn u32_at(m: Map<int, u8>, addr: int) -> u32 {
    le_value(m, addr, 4) as u32
}

/// `m` after writing the machine word `v` at `addr`.
pub open spec fn store_word(m: Map<int, u8>, addr: usize, v: usize) -> Map<int, u8> {
    store_le(m, addr as int, v as nat, word_bytes())
}

/// Direct access to the memory the emulated instruction operates on.
/// Memory is little-endian; the caller of each method guarantees that the
/// addressed bytes exist and are aligned.
pub trait Memory {
    /// The bytes this memory holds, by address. An implementation that does
    /// not describe its bytes holds none as far as a proof can tell, so no
    /// verified caller can reach its methods.
    open spec fn bytes(&self) -> Map<int, u8> {
        Map::empty()
    }

    fn read_u32(&self, addr: usize) -> (r: u32)
        requires
            u32_accessible(self.bytes(), addr),
        ensures
            r == u32_at(self.bytes(), addr as int),
    ;

    fn read_word(&self, addr: usize) -> (r: usize)
        requires
            word_accessible(self.bytes(), addr),
        ensures
            r == word_at(self.bytes(), addr),
    ;

    fn write_word(&mut self, addr: usize, value: usize)
        requires
            word_accessible(old(self).bytes(), addr),
        ensures
            final(self).bytes() == store_word(old(self).bytes(), addr, value),
    ;
}

pub proof fn lemma_pow256_is_pow(n: nat)
    ensures
        pow256(n) == pow(256, n),
    decreases n,
{
    reveal(pow);
    if n > 0 {
        lemma_pow256_is_pow((n - 1) as nat);
    }
}

/// A machine word has `usize::MAX + 1` values.
pub proof fn lemma_word_range()
    ensures
        pow256(word_bytes()) == usize::MAX as nat + 1,
        4 <= word_bytes(),
{
    unsigned_int_max_values();
    lemma_pow256_is_pow(word_bytes());
    broadcast use vstd::layout::layout_of_primitives;
    assert(usize::BITS == 32 || usize::BITS == 64);
}

pub proof fn lemma_pow256_monotonic(i: nat, j: nat)
    requires
        i <= j,
    ensures
        pow256(i) <= pow256(j),
    decreases j,
{
    if i < j {
        lemma_pow256_monotonic(i, (j - 1) as nat);
    }
}

pub proof fn lemma_le_value_bound(m: Map<int, u8>, addr: int, n: nat)
    ensures
        le_value(m, addr, n) < pow256(n),
    decreases n,
{
    if n > 0 {
        lemma_le_value_bound(m, addr + 1, (n - 1) as nat);
    }
}

/// Storing leaves every byte before `addr` as it was.
pub proof fn lemma_store_le_below(m: Map<int, u8>, addr: int, v: nat, n: nat, x: int)
    requires
        x < addr,
    ensures
        store_le(m, addr, v, n)[x] == m[x],
    decreases n,
{
    if n > 0 {
        lemma_store_le_below(m.insert(addr, (v % 256) as u8), addr + 1, v / 256, (n - 1) as nat, x);
    }
}

/// Reading back the bytes just stored gives the stored value modulo `256^n`.
pub proof fn lemma_le_value_store_le(m: Map<int, u8>, addr: int, v: nat, n: nat)
    ensures
        le_value(store_le(m, addr, v, n), addr, n) == v % pow256(n),
    decreases n,
{
    if n > 0 {
        let m1 = m.insert(addr, (v % 256) as u8);
        let k = (n - 1) as nat;
        lemma_le_value_store_le(m1, addr + 1, v / 256, k);
        lemma_store_le_below(m1, addr + 1, v / 256, k, addr);
        assert(pow256(k) > 0) by {
            lemma_pow256_monotonic(0, k);
        }
        lemma_mod_breakdown(v as int, 256, pow256(k) as int);
    }
}

/// Reading the word just written at `addr` gives the written value.
pub proof fn lemma_word_at_store_word(m: Map<int, u8>, addr: usize, v: usize)
    ensures
        word_at(store_word(m, addr, v), addr) == v,
{
    lemma_le_value_store_le(m, addr as int, v as nat, word_bytes());
    lemma_word_range();
    lemma_small_mod(v as nat, pow256(word_bytes()));
}

/// A region of memory held in a byte buffer: `data[i]` is the byte at
/// address `base + i`.
pub struct ByteMemory {
    pub base: usize,
    pub data: Vec<u8>,
}

impl ByteMemory {
    /// A memory whose bytes from `base` on are those of `data`.
    pub fn new(base: usize, data: Vec<u8>) -> (r: ByteMemory)
        ensures
            r.base == base,
            r.data@ == data@,
    {
        ByteMemory { base, data }
    }

    /// Little-endian value of the `n` bytes starting at `addr`.
    fn load(&self, addr: usize, n: usize) -> (r: usize)
        requires
            0 < n <= word_bytes(),
            accessible(self.bytes(), addr as int, n as nat),
        ensures
            r == le_value(self.bytes(), addr as int, n as nat),
    {
        assert(self.bytes().dom().contains(addr as int));
        assert(self.bytes().dom().contains(addr + n - 1));
        let off: usize = addr - self.base;
        let mut acc: usize = 0;
        let mut i: usize = n;
        proof {
            lemma_word_range();
        }
        while i > 0
            invariant
                i <= n <= word_bytes(),
                off + n <= self.data.len(),
                off == addr - self.base,
                pow256(word_bytes()) == usize::MAX as nat + 1,
                acc == le_value(self.bytes(), addr + i, (n - i) as nat),
            decreases i,
        {
            let ghost k: nat = (n - i) as nat;
            proof {
                lemma_le_value_bound(self.bytes(), addr + i, k);
                lemma_pow256_monotonic(k + 1, word_bytes());
                assert(acc * 256 <= (pow256(k) - 1) * 256) by (nonlinear_arith)
                    requires
                        acc <= pow256(k) - 1,
                ;
            }
            i = i - 1;
            let b: u8 = self.data[off + i];
            assert(self.bytes()[addr + i] == b);
            acc = acc * 256 + b as usize;
        }
        acc
    }
}

impl Memory for ByteMemory {
    open spec fn bytes(&self) -> Map<int, u8> {
        Map::new(
            |a: int| self.base <= a < self.base + self.data@.len(),
            |a: int| self.data@[a - self.base],
        )
    }

    fn read_u32(&self, addr: usize) -> (r: u32)
    {
        proof {
            lemma_word_range();
            lemma_le_value_bound(self.bytes(), addr as int, 4);
        }
        self.load(addr, 4) as u32
    }

    fn read_word(&self, addr: usize) -> (r: usize)
    {
        proof {
            lemma_word_range();
        }
        self.load(addr, core::mem::size_of::<usize>())
    }

    fn write_word(&mut self, addr: usize, value: usize)
    {
        let n: usize = core::mem::size_of::<usize>();
        proof {
            lemma_word_range();
        }
        assert(self.bytes().dom().contains(addr as int));
        assert(self.bytes().dom().contains(addr + n - 1));
        let off: usize = addr - self.base;
        let mut x: usize = value;
        let mut k: usize = 0;
        while k < n
            invariant
                k <= n,
                n == word_bytes(),
                off + n <= self.data.len(),
                off == addr - self.base,
                self.base == old(self).base,
                self.data@.len() == old(self).data@.len(),
                store_le(self.bytes(), addr + k, x as nat, (n - k) as nat) == store_le(
                    old(self).bytes(),
                    addr as int,
                    value as nat,
                    n as nat,
                ),
            decreases n - k,
        {
            let ghost before = self.bytes();
            self.data.set(off + k, (x % 256) as u8);
            assert(self.bytes() =~= before.insert(addr + k, (x % 256) as u8));
            x = x / 256;
            k = k + 1;
        }
    }
}

} // verus!

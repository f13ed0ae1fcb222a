use vstd::arithmetic::div_mod::{lemma_mod_breakdown, lemma_small_mod};
use vstd::arithmetic::mul::lemma_mul_inequality;
use vstd::arithmetic::power2::{lemma2_to64, lemma2_to64_rest, lemma_pow2_adds, lemma_pow2_pos, pow2};
use vstd::bits::{lemma_u64_shl_is_mul, lemma_u64_shr_is_div};
use vstd::prelude::*;

use crate::exception::Exception;
use crate::param::{DRAM_BASE, DRAM_END, DRAM_SIZE};

verus! {

/// Width of a memory access.
#[derive(Debug, Clone, Copy, PartialEq, Eq, Structural)]
pub enum SizeType {
    /// 8-bit
    Byte,
    /// 16-bit
    Half,
    /// 32-bit
    Word,
    /// 64-bit
    DoubleWord,
}

impl SizeType {
    pub open spec fn bytes(self) -> nat {
        match self {
            SizeType::Byte => 1,
            SizeType::Half => 2,
            SizeType::Word => 4,
            SizeType::DoubleWord => 8,
        }
    }

    pub fn how_many_bytes(&self) -> (r: usize)
        ensures
            r == self.bytes(),
    {
        match self {
            SizeType::Byte => 1,
            SizeType::Half => 2,
            SizeType::Word => 4,
            SizeType::DoubleWord => 8,
        }
    }
}

/// The little-endian value of the `n` bytes of `mem` that start at `i`.
pub open spec fn le_value(mem: Seq<u8>, i: int, n: nat) -> nat
    decreases n,
{
    if n == 0 {
        0
    } else {
        le_value(mem, i, (n - 1) as nat) + (mem[i + n - 1] as nat) * pow2((8 * (n - 1)) as nat)
    }
}

/// An `n`-byte value `x` widened to 64 bits by copying its top bit upward.
pub open spec fn sign_extend(x: nat, n: nat) -> u64 {
    if 1 <= n < 8 && x >= pow2((8 * n - 1) as nat) {
        (x + 0x1_0000_0000_0000_0000 - pow2(8 * n)) as u64
    } else {
        x as u64
    }
}

/// Byte `k` of `v`, counting from the least significant.
pub open spec fn byte_of(v: u64, k: nat) -> u8 {
    ((v as nat / pow2(8 * k)) % 256) as u8
}

/// `mem` after the low `n` bytes of `v` are written little-endian at `i`.
pub open spec fn stored(mem: Seq<u8>, i: int, n: nat, v: u64) -> Seq<u8> {
    Seq::new(mem.len(), |j: int| if i <= j < i + n { byte_of(v, (j - i) as nat) } else { mem[j] })
}

/// The memory image at start: the program followed by zeros.
pub open spec fn initial_image(code: Seq<u8>) -> Seq<u8> {
    code + Seq::new((DRAM_SIZE - code.len()) as nat, |_j: int| 0u8)
}

/// Main memory: a flat byte array standing for the window
/// `DRAM_BASE ..= DRAM_END`. Callers validate each address first.
pub struct Dram {
    pub dram: Vec<u8>,
}

impl View for Dram {
    type V = Seq<u8>;

    open spec fn view(&self) -> Seq<u8> {
        self.dram@
    }
}

/// The byte at `8 * k` bits keeps the running value under the next power.
proof fn lemma_le_step(value: nat, b: u8, k: nat)
    requires
        k < 8,
        value < pow2(8 * k),
    ensures
        value + b * pow2(8 * k) < pow2(8 * (k + 1)),
        pow2(8 * (k + 1)) <= 0x1_0000_0000_0000_0000,
{
    lemma_pow2_pos(8 * k);
    lemma_mul_inequality(b as int, 255, pow2(8 * k) as int);
    lemma_pow2_adds(8 * k, 8);
    lemma2_to64();
    lemma2_to64_rest();
    assert(8 * (k + 1) == 8 * k + 8) by (nonlinear_arith);
    if k + 1 < 8 {
        vstd::arithmetic::power2::lemma_pow2_strictly_increases(8 * (k + 1), 64);
    }
}

/// The little-endian value of `n` bytes stays below `2^(8n)`.
pub proof fn lemma_le_value_bound(mem: Seq<u8>, i: int, n: nat)
    requires
        n <= 8,
    ensures
        le_value(mem, i, n) < pow2(8 * n),
    decreases n,
{
    if n == 0 {
        lemma2_to64();
    } else {
        lemma_le_value_bound(mem, i, (n - 1) as nat);
        lemma_le_step(le_value(mem, i, (n - 1) as nat), mem[i + n - 1], (n - 1) as nat);
    }
}

/// Writing the bytes of `v` and reading them back yields `v` modulo `2^(8n)`.
proof fn lemma_le_value_stored(mem: Seq<u8>, i: int, n: nat, k: nat, v: u64)
    requires
        0 <= i,
        i + n <= mem.len(),
        k <= n <= 8,
    ensures
        le_value(stored(mem, i, n, v), i, k) == v as nat % pow2(8 * k),
    decreases k,
{
    lemma2_to64();
    if k > 0 {
        let p = pow2(8 * (k - 1) as nat);
        lemma_pow2_pos(8 * (k - 1) as nat);
        lemma_le_value_stored(mem, i, n, (k - 1) as nat, v);
        lemma_pow2_adds(8 * (k - 1) as nat, 8);
        assert(8 * (k - 1) as nat + 8 == 8 * k) by (nonlinear_arith)
            requires
                k > 0,
        ;
        lemma_mod_breakdown(v as int, p as int, 256);
        assert(p * 256 == pow2(8 * k));
        let b = (v as nat / p) % 256;
        assert(stored(mem, i, n, v)[i + k - 1] == b);
        assert(b * p == p * b) by (nonlinear_arith);
    }
}

impl Dram {
    /// The array spans the whole window.
    pub open spec fn wf(&self) -> bool {
        self@.len() == DRAM_SIZE
    }

    /// Memory of `DRAM_SIZE` bytes whose start holds `code`.
    pub fn new(code: Vec<u8>) -> (r: Dram)
        requires
            code@.len() <= DRAM_SIZE,
        ensures
            r.wf(),
            r@ == initial_image(code@),
    {
        let mut dram: Vec<u8> = vec![0; DRAM_SIZE as usize];
        let mut i: usize = 0;
        while i < code.len()
            invariant
                code@.len() <= DRAM_SIZE,
                dram@.len() == DRAM_SIZE,
                0 <= i <= code@.len(),
                forall|j: int| 0 <= j < i ==> dram@[j] == code@[j],
                forall|j: int| i <= j < DRAM_SIZE ==> dram@[j] == 0,
            decreases code@.len() - i,
        {
            dram.set(i, code[i]);
            i = i + 1;
        }
        let r = Dram { dram };
        assert(r@ =~= initial_image(code@));
        r
    }

    /// The byte at `addr`, which lies in the window.
    pub fn fetch_inst(&self, addr: u64) -> (r: u8)
        requires
            self.wf(),
            DRAM_BASE <= addr <= DRAM_END,
        ensures
            r == self@[addr - DRAM_BASE],
    {
        let index = (addr - DRAM_BASE) as usize;
        self.dram[index]
    }

    /// The `n` bytes at `index`, as a little-endian unsigned value.
    fn read_le(&self, index: usize, n: usize) -> (r: u64)
        requires
            self.wf(),
            n <= 8,
            index + n <= self@.len(),
        ensures
            r == le_value(self@, index as int, n as nat),
    {
        let mut value: u64 = 0;
        let mut k: usize = 0;
        while k < n
            invariant
                self.wf(),
                n <= 8,
                index + n <= self@.len(),
                k <= n,
                value == le_value(self@, index as int, k as nat),
            decreases n - k,
        {
            let b = self.dram[index + k] as u64;
            proof {
                lemma_le_value_bound(self@, index as int, k as nat);
                lemma_le_step(value as nat, b as u8, k as nat);
                lemma_pow2_pos(8 * k as nat);
                lemma_mul_inequality(b as int, 255, pow2(8 * k as nat) as int);
                lemma_u64_shl_is_mul(b, (8 * k) as u64);
            }
            value = value + (b << (8 * k as u64));
            k = k + 1;
        }
        value
    }

    /// Reads `size` bytes at `addr` and sign-extends them to 64 bits.
    pub fn load(&self, addr: u64, size: SizeType) -> (r: Result<u64, Exception>)
        requires
            self.wf(),
            DRAM_BASE <= addr,
            addr - DRAM_BASE + size.bytes() <= DRAM_SIZE,
        ensures
            r == Ok::<u64, Exception>(
                sign_extend(le_value(self@, addr - DRAM_BASE, size.bytes()), size.bytes()),
            ),
    {
        let n_bytes = size.how_many_bytes();
        let index = (addr - DRAM_BASE) as usize;
        let value = self.read_le(index, n_bytes);
        proof {
            lemma_le_value_bound(self@, index as int, n_bytes as nat);
            lemma2_to64();
            lemma2_to64_rest();
        }
        let extended = match size {
            SizeType::Byte => if value >= 0x80 { value + 0xFFFF_FFFF_FFFF_FF00 } else { value },
            SizeType::Half => if value >= 0x8000 { value + 0xFFFF_FFFF_FFFF_0000 } else { value },
            SizeType::Word => if value >= 0x8000_0000 { value + 0xFFFF_FFFF_0000_0000 } else { value },
            SizeType::DoubleWord => value,
        };
        Ok(extended)
    }

    /// Reads `size` bytes at `addr`, zero-extended to 64 bits.
    pub fn load_u(&self, addr: u64, size: SizeType) -> (r: Result<u64, Exception>)
        requires
            self.wf(),
            DRAM_BASE <= addr,
            addr - DRAM_BASE + size.bytes() <= DRAM_SIZE,
        ensures
            r == Ok::<u64, Exception>(le_value(self@, addr - DRAM_BASE, size.bytes()) as u64),
    {
        let n_bytes = size.how_many_bytes();
        let index = (addr - DRAM_BASE) as usize;
        Ok(self.read_le(index, n_bytes))
    }

    /// Writes the low `size` bytes of `value` at `addr`, little-endian.
    pub fn store(&mut self, addr: u64, size: SizeType, value: u64) -> (r: Result<(), Exception>)
        requires
            old(self).wf(),
            DRAM_BASE <= addr,
            addr - DRAM_BASE + size.bytes() <= DRAM_SIZE,
        ensures
            r == Ok::<(), Exception>(()),
            final(self)@ == stored(old(self)@, addr - DRAM_BASE, size.bytes(), value),
    {
        let n_bytes = size.how_many_bytes();
        let index = (addr - DRAM_BASE) as usize;
        let ghost before = self@;
        let mut k: usize = 0;
        while k < n_bytes
            invariant
                n_bytes == size.bytes(),
                index + n_bytes <= DRAM_SIZE,
                before.len() == DRAM_SIZE,
                self@.len() == DRAM_SIZE,
                k <= n_bytes,
                forall|j: int|
                    0 <= j < DRAM_SIZE ==> #[trigger] self@[j] == if index <= j < index + k {
                        byte_of(value, (j - index) as nat)
                    } else {
                        before[j]
                    },
            decreases n_bytes - k,
        {
            proof {
                lemma_u64_shr_is_div(value, (8 * k) as u64);
            }
            let b = ((value >> (8 * k as u64)) % 256) as u8;
            self.dram.set(index + k, b);
            k = k + 1;
        }
        assert(self@ =~= stored(before, index as int, n_bytes as nat, value));
        Ok(())
    }
}

/// Storing `w` bytes of `v` and loading them back unsigned gives `v`
/// truncated to its low `8 * w` bits.
pub proof fn lemma_store_then_load_unsigned(mem: Seq<u8>, i: int, size: SizeType, v: u64)
    requires
        0 <= i,
        i + size.bytes() <= mem.len(),
    ensures
        le_value(stored(mem, i, size.bytes(), v), i, size.bytes()) as u64 == v as nat % pow2(
            8 * size.bytes(),
        ),
{
    lemma_le_value_stored(mem, i, size.bytes(), size.bytes(), v);
    lemma_le_value_bound(stored(mem, i, size.bytes(), v), i, size.bytes());
    lemma2_to64();
    lemma2_to64_rest();
}

/// Storing `w < 8` bytes of `v` and loading them back signed gives the low
/// `8 * w` bits of `v` sign-extended to 64 bits; for `w == 8` it gives `v`.
pub proof fn lemma_store_then_load(mem: Seq<u8>, i: int, size: SizeType, v: u64)
    requires
        0 <= i,
        i + size.bytes() <= mem.len(),
    ensures
        sign_extend(le_value(stored(mem, i, size.bytes(), v), i, size.bytes()), size.bytes())
            == sign_extend(v as nat % pow2(8 * size.bytes()), size.bytes()),
        size == SizeType::DoubleWord ==> sign_extend(
            le_value(stored(mem, i, size.bytes(), v), i, size.bytes()),
            size.bytes(),
        ) == v,
{
    lemma_le_value_stored(mem, i, size.bytes(), size.bytes(), v);
    lemma2_to64();
    lemma2_to64_rest();
    lemma_small_mod(v as nat, pow2(64));
}

} // verus!

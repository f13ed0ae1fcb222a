use vstd::prelude::*;

use crate::param::{MASK_SSTATUS, MIDELEG, MIE, MIP, MSTATUS, SIE, SIP, SSTATUS};

verus! {

pub const NUM_CSRS: usize = 4096;

/// `old` with the bits selected by `mask` replaced by those of `value`.
pub open spec fn masked_write(old: u64, value: u64, mask: u64) -> u64 {
    (old & !mask) | (value & mask)
}

/// What reading CSR `addr` yields. The supervisor registers `sie`, `sip` and
/// `sstatus` are views of masked bits of `mie`, `mip` and `mstatus`.
pub open spec fn csr_read(c: Seq<u64>, addr: int) -> u64 {
    if addr == SIE {
        c[MIE as int] & c[MIDELEG as int]
    } else if addr == SIP {
        c[MIP as int] & c[MIDELEG as int]
    } else if addr == SSTATUS {
        c[MSTATUS as int] & MASK_SSTATUS
    } else {
        c[addr]
    }
}

/// The bank after writing `value` to CSR `addr`. A write to a supervisor view
/// changes only the masked bits of the register behind it.
pub open spec fn csr_write(c: Seq<u64>, addr: int, value: u64) -> Seq<u64> {
    if addr == SIE {
        c.update(MIE as int, masked_write(c[MIE as int], value, c[MIDELEG as int]))
    } else if addr == SIP {
        c.update(MIP as int, masked_write(c[MIP as int], value, c[MIDELEG as int]))
    } else if addr == SSTATUS {
        c.update(MSTATUS as int, masked_write(c[MSTATUS as int], value, MASK_SSTATUS))
    } else {
        c.update(addr, value)
    }
}

/// A masked write keeps every bit outside the mask and takes every bit
/// inside it from the written value.
pub proof fn lemma_masked_write(old: u64, value: u64, mask: u64)
    ensures
        masked_write(old, value, mask) & !mask == old & !mask,
        masked_write(old, value, mask) & mask == value & mask,
{
    assert((((old & !mask) | (value & mask)) & !mask == old & !mask) && (((old & !mask) | (value
        & mask)) & mask == value & mask)) by (bit_vector);
}

/// The bank of 4096 control and status registers.
pub struct Csr {
    csrs: Vec<u64>,
}

impl View for Csr {
    type V = Seq<u64>;

    closed spec fn view(&self) -> Seq<u64> {
        self.csrs@
    }
}

impl Csr {
    /// One register for each 12-bit address.
    pub open spec fn wf(&self) -> bool {
        self@.len() == NUM_CSRS
    }

    /// A bank with every register zero.
    pub fn new() -> (r: Csr)
        ensures
            r.wf(),
            r@ == Seq::new(NUM_CSRS as nat, |_i: int| 0u64),
    {
        let r = Self { csrs: vec![0; NUM_CSRS] };
        assert(r@ =~= Seq::new(NUM_CSRS as nat, |_i: int| 0u64));
        r
    }

    pub fn load(&self, addr: usize) -> (r: u64)
        requires
            self.wf(),
            addr < NUM_CSRS,
        ensures
            r == csr_read(self@, addr as int),
    {
        match addr {
            SIE => self.csrs[MIE] & self.csrs[MIDELEG],
            SIP => self.csrs[MIP] & self.csrs[MIDELEG],
            SSTATUS => self.csrs[MSTATUS] & MASK_SSTATUS,
            _ => self.csrs[addr],
        }
    }

    pub fn store(&mut self, addr: usize, value: u64)
        requires
            old(self).wf(),
            addr < NUM_CSRS,
        ensures
            final(self).wf(),
            final(self)@ == csr_write(old(self)@, addr as int, value),
    {
        match addr {
            SIE => {
                let v = (self.csrs[MIE] & !self.csrs[MIDELEG]) | (value & self.csrs[MIDELEG]);
                self.csrs.set(MIE, v);
            },
            SIP => {
                let v = (self.csrs[MIP] & !self.csrs[MIDELEG]) | (value & self.csrs[MIDELEG]);
                self.csrs.set(MIP, v);
            },
            SSTATUS => {
                let v = (self.csrs[MSTATUS] & !MASK_SSTATUS) | (value & MASK_SSTATUS);
                self.csrs.set(MSTATUS, v);
            },
            _ => {
                self.csrs.set(addr, value);
            },
        }
    }
}

impl Default for Csr {
    fn default() -> (r: Csr)
        ensures
            r.wf(),
            r@ == Seq::new(NUM_CSRS as nat, |_i: int| 0u64),
    {
        Self::new()
    }
}

} // verus!

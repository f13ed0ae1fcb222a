use vstd::prelude::*;

use crate::decode::add64;
use crate::dram::{initial_image, le_value, sign_extend, stored, Dram, SizeType};
use crate::exception::Exception;
use crate::param::{DRAM_BASE, DRAM_END, DRAM_SIZE};

verus! {

/// An instruction address inside the memory window.
pub open spec fn in_window(addr: u64) -> bool {
    DRAM_BASE <= addr <= DRAM_END
}

/// A data access of `n` bytes at `addr` lies wholly inside the memory window.
/// Data addresses are offsets from `DRAM_BASE`: the access covers the
/// absolute addresses `addr + DRAM_BASE ..= addr + DRAM_BASE + n - 1`.
pub open spec fn data_in_window(addr: u64, n: nat) -> bool {
    addr + n <= DRAM_SIZE
}

/// The absolute address that data address `addr` maps to, modulo 2^64;
/// the address an access fault reports.
pub open spec fn mapped(addr: u64) -> u64 {
    add64(addr, DRAM_BASE)
}

/// What an instruction fetch of the byte at `addr` yields.
pub open spec fn fetch_spec(mem: Seq<u8>, addr: u64) -> Result<u8, Exception> {
    if in_window(addr) {
        Ok(mem[addr - DRAM_BASE])
    } else {
        Err(Exception::InstructionAccessFault(addr))
    }
}

/// What a signed load of `size` bytes at data address `addr` yields.
pub open spec fn load_spec(mem: Seq<u8>, addr: u64, size: SizeType) -> Result<u64, Exception> {
    if data_in_window(addr, size.bytes()) {
        Ok(sign_extend(le_value(mem, addr as int, size.bytes()), size.bytes()))
    } else {
        Err(Exception::LoadAccessFault(mapped(addr)))
    }
}

/// What an unsigned load of `size` bytes at data address `addr` yields.
pub open spec fn load_u_spec(mem: Seq<u8>, addr: u64, size: SizeType) -> Result<u64, Exception> {
    if data_in_window(addr, size.bytes()) {
        Ok(le_value(mem, addr as int, size.bytes()) as u64)
    } else {
        Err(Exception::LoadAccessFault(mapped(addr)))
    }
}

/// The memory after a store of `size` bytes of `value` at data address
/// `addr`, or the fault that leaves it untouched.
pub open spec fn store_spec(mem: Seq<u8>, addr: u64, size: SizeType, value: u64) -> Result<
    Seq<u8>,
    Exception,
> {
    if data_in_window(addr, size.bytes()) {
        Ok(stored(mem, addr as int, size.bytes(), value))
    } else {
        Err(Exception::StoreAMOAccessFault(mapped(addr)))
    }
}

/// The system bus: routes each access to memory after checking that its
/// whole span lies in the window `DRAM_BASE ..= DRAM_END`.
pub struct Bus {
    pub dram: Dram,
}

impl View for Bus {
    type V = Seq<u8>;

    open spec fn view(&self) -> Seq<u8> {
        self.dram@
    }
}

impl Bus {
    /// Memory spans the whole window.
    pub open spec fn wf(&self) -> bool {
        self.dram.wf()
    }

    pub fn new(code: Vec<u8>) -> (r: Bus)
        requires
            code@.len() <= DRAM_SIZE,
        ensures
            r.wf(),
            r@ == initial_image(code@),
    {
        Self { dram: Dram::new(code) }
    }

    /// The instruction byte at absolute address `addr`.
    pub fn fetch_inst(&self, addr: u64) -> (r: Result<u8, Exception>)
        requires
            self.wf(),
        ensures
            r == fetch_spec(self@, addr),
    {
        if DRAM_BASE <= addr && addr <= DRAM_END {
            Ok(self.dram.fetch_inst(addr))
        } else {
            Err(Exception::InstructionAccessFault(addr))
        }
    }

    /// Signed load at data address `addr`, an offset from `DRAM_BASE`. A fault
    /// carries the mapped address.
    pub fn load(&mut self, addr: u64, size: SizeType) -> (r: Result<u64, Exception>)
        requires
            old(self).wf(),
        ensures
            *final(self) == *old(self),
            r == load_spec(old(self)@, addr, size),
    {
        let n = size.how_many_bytes() as u64;
        if addr <= DRAM_SIZE - n {
            self.dram.load(addr + DRAM_BASE, size)
        } else {
            Err(Exception::LoadAccessFault(addr.wrapping_add(DRAM_BASE)))
        }
    }

    /// Stores the low bytes of `value` at data address `addr`, an offset
    /// from `DRAM_BASE`. A fault carries the mapped address and leaves memory
    /// untouched.
    pub fn store(&mut self, addr: u64, size: SizeType, value: u64) -> (r: Result<(), Exception>)
        requires
            old(self).wf(),
        ensures
            final(self).wf(),
            match store_spec(old(self)@, addr, size, value) {
                Ok(mem) => r == Ok::<(), Exception>(()) && final(self)@ == mem,
                Err(e) => r == Err::<(), Exception>(e) && *final(self) == *old(self),
            },
    {
        let n = size.how_many_bytes() as u64;
        if addr <= DRAM_SIZE - n {
            self.dram.store(addr + DRAM_BASE, size, value)
        } else {
            Err(Exception::StoreAMOAccessFault(addr.wrapping_add(DRAM_BASE)))
        }
    }

    /// Unsigned load at data address `addr`, an offset from `DRAM_BASE`. A
    /// fault carries the mapped address.
    pub fn load_u(&mut self, addr: u64, size: SizeType) -> (r: Result<u64, Exception>)
        requires
            old(self).wf(),
        ensures
            *final(self) == *old(self),
            r == load_u_spec(old(self)@, addr, size),
    {
        let n = size.how_many_bytes() as u64;
        if addr <= DRAM_SIZE - n {
            self.dram.load_u(addr + DRAM_BASE, size)
        } else {
            Err(Exception::LoadAccessFault(addr.wrapping_add(DRAM_BASE)))
        }
    }
}

} // verus!

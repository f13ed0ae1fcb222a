use vstd::prelude::*;

verus! {

/// The architectural trap causes. Each carries one 64-bit payload: the
/// faulting address, the raw instruction bits, or the program counter.
#[derive(Debug, Clone, Copy, PartialEq, Eq, Structural)]
pub enum Exception {
    InstructionAddrMisaligned(u64),
    InstructionAccessFault(u64),
    IllegalInstruction(u64),
    Breakpoint(u64),
    LoadAccessMisaligned(u64),
    LoadAccessFault(u64),
    StoreAMOAddrMisaligned(u64),
    StoreAMOAccessFault(u64),
    EnvironmentCallFromUMode(u64),
    EnvironmentCallFromSMode(u64),
    EnvironmentCallFromMMode(u64),
    InstructionPageFault(u64),
    LoadPageFault(u64),
    StoreAMOPageFault(u64),
}

impl Exception {
    /// The payload carried by the exception.
    pub open spec fn spec_value(self) -> u64 {
        match self {
            Exception::InstructionAddrMisaligned(v) => v,
            Exception::InstructionAccessFault(v) => v,
            Exception::IllegalInstruction(v) => v,
            Exception::Breakpoint(v) => v,
            Exception::LoadAccessMisaligned(v) => v,
            Exception::LoadAccessFault(v) => v,
            Exception::StoreAMOAddrMisaligned(v) => v,
            Exception::StoreAMOAccessFault(v) => v,
            Exception::EnvironmentCallFromUMode(v) => v,
            Exception::EnvironmentCallFromSMode(v) => v,
            Exception::EnvironmentCallFromMMode(v) => v,
            Exception::InstructionPageFault(v) => v,
            Exception::LoadPageFault(v) => v,
            Exception::StoreAMOPageFault(v) => v,
        }
    }

    /// The cause code that the privileged architecture assigns to each
    /// exception; 10 and 14 are reserved and never produced.
    pub open spec fn spec_code(self) -> u64 {
        match self {
            Exception::InstructionAddrMisaligned(_) => 0,
            Exception::InstructionAccessFault(_) => 1,
            Exception::IllegalInstruction(_) => 2,
            Exception::Breakpoint(_) => 3,
            Exception::LoadAccessMisaligned(_) => 4,
            Exception::LoadAccessFault(_) => 5,
            Exception::StoreAMOAddrMisaligned(_) => 6,
            Exception::StoreAMOAccessFault(_) => 7,
            Exception::EnvironmentCallFromUMode(_) => 8,
            Exception::EnvironmentCallFromSMode(_) => 9,
            Exception::EnvironmentCallFromMMode(_) => 11,
            Exception::InstructionPageFault(_) => 12,
            Exception::LoadPageFault(_) => 13,
            Exception::StoreAMOPageFault(_) => 15,
        }
    }

    /// Causes that a full system would treat as unrecoverable.
    pub open spec fn spec_is_fatal(self) -> bool {
        ||| self is InstructionAddrMisaligned
        ||| self is InstructionAccessFault
        ||| self is LoadAccessFault
        ||| self is StoreAMOAddrMisaligned
        ||| self is StoreAMOAccessFault
        ||| self is IllegalInstruction
    }

    pub fn value(self) -> (r: u64)
        ensures
            r == self.spec_value(),
    {
        match self {
            Exception::InstructionAddrMisaligned(addr) => addr,
            Exception::InstructionAccessFault(addr) => addr,
            Exception::IllegalInstruction(inst) => inst,
            Exception::Breakpoint(pc) => pc,
            Exception::LoadAccessMisaligned(addr) => addr,
            Exception::LoadAccessFault(addr) => addr,
            Exception::StoreAMOAddrMisaligned(addr) => addr,
            Exception::StoreAMOAccessFault(addr) => addr,
            Exception::EnvironmentCallFromUMode(pc) => pc,
            Exception::EnvironmentCallFromSMode(pc) => pc,
            Exception::EnvironmentCallFromMMode(pc) => pc,
            Exception::InstructionPageFault(addr) => addr,
            Exception::LoadPageFault(addr) => addr,
            Exception::StoreAMOPageFault(addr) => addr,
        }
    }

    pub fn code(self) -> (r: u64)
        ensures
            r == self.spec_code(),
    {
        match self {
            Exception::InstructionAddrMisaligned(_) => 0,
            Exception::InstructionAccessFault(_) => 1,
            Exception::IllegalInstruction(_) => 2,
            Exception::Breakpoint(_) => 3,
            Exception::LoadAccessMisaligned(_) => 4,
            Exception::LoadAccessFault(_) => 5,
            Exception::StoreAMOAddrMisaligned(_) => 6,
            Exception::StoreAMOAccessFault(_) => 7,
            Exception::EnvironmentCallFromUMode(_) => 8,
            Exception::EnvironmentCallFromSMode(_) => 9,
            Exception::EnvironmentCallFromMMode(_) => 11,
            Exception::InstructionPageFault(_) => 12,
            Exception::LoadPageFault(_) => 13,
            Exception::StoreAMOPageFault(_) => 15,
        }
    }

    pub fn is_fatal(self) -> (r: bool)
        ensures
            r == self.spec_is_fatal(),
    {
        match self {
            Exception::InstructionAddrMisaligned(_) => true,
            Exception::InstructionAccessFault(_) => true,
            Exception::LoadAccessFault(_) => true,
            Exception::StoreAMOAddrMisaligned(_) => true,
            Exception::StoreAMOAccessFault(_) => true,
            Exception::IllegalInstruction(_) => true,
            _ => false,
        }
    }
}

} // verus!

use vstd::arithmetic::power2::lemma2_to64;
use vstd::prelude::*;

use crate::bus::{data_in_window, in_window, load_spec, load_u_spec, mapped, store_spec, Bus};
use crate::csr::Csr;
use crate::decode::{
    add64, alt_bit, alu, alu_of, branch_taken, funct3, funct7, imm_b, imm_b_of, imm_i, imm_i_of, imm_s,
    imm_s_of, is_word_op, lemma_field_bounds, load_kind, load_kind_of, op_funct7_ok, opcode, rd, rs1, rs2,
    sext32, sext32_of, shift_imm_ok, store_size, store_size_of,
};
use crate::dram::{initial_image, le_value};
use crate::exception::Exception;
use crate::param::{
    ADDIW, ADDW_SUBW, ADD_SUB, BEQ, BGE, BGEU, BLT, BLTU, BNE, BRANCH_OP, DRAM_BASE, DRAM_END,
    DRAM_SIZE, I_TYPE_OP, I_W_TYPE_OP, LOAD_OP, R_TYPE_OP, R_W_TYPE_OP, SLLI, SLLIW, SLLW,
    SRLIW_SRAIW, SRLI_SRAI, SRLW_SRAW, SRL_SRA, STORE_OP,
};
use crate::register::{parse_register, register_of, Register};

verus! {

/// The register file after writing `v` to register `rd`; register 0 ignores
/// writes.
pub open spec fn write_reg(gpr: Seq<u64>, rd: int, v: u64) -> Seq<u64> {
    if rd == 0 {
        gpr
    } else {
        gpr.update(rd, v)
    }
}

/// What fetching the instruction at `pc` yields: the little-endian word of
/// the four bytes at `pc`, or a fault at the first byte outside the window.
pub open spec fn fetch_word(mem: Seq<u8>, pc: u64) -> Result<u32, Exception> {
    if !in_window(pc) {
        Err(Exception::InstructionAccessFault(pc))
    } else if pc + 3 > DRAM_END {
        Err(Exception::InstructionAccessFault((DRAM_END + 1) as u64))
    } else {
        Ok(le_value(mem, pc - DRAM_BASE, 4) as u32)
    }
}

/// The result of an instruction that no class of the decoder recognizes.
pub open spec fn illegal(inst: u32) -> Result<(Seq<u64>, Seq<u8>, u64), Exception> {
    Err(Exception::IllegalInstruction(inst as u64))
}

/// A conditional branch: no register or memory changes; the next program
/// counter is `pc` plus the branch offset if the comparison holds.
pub open spec fn branch_step(gpr: Seq<u64>, pc: u64, mem: Seq<u8>, inst: u32) -> Result<
    (Seq<u64>, Seq<u8>, u64),
    Exception,
> {
    match branch_taken(funct3(inst), gpr[rs1(inst) as int], gpr[rs2(inst) as int]) {
        Some(true) => Ok((gpr, mem, add64(pc, imm_b(inst)))),
        Some(false) => Ok((gpr, mem, add64(pc, 4))),
        None => illegal(inst),
    }
}

/// The data address of a load: `rs1` plus the immediate, modulo 2^64.
pub open spec fn load_address(gpr: Seq<u64>, inst: u32) -> u64 {
    add64(gpr[rs1(inst) as int], imm_i(inst))
}

/// The data address of a store: `rs1` plus the immediate, modulo 2^64.
pub open spec fn store_address(gpr: Seq<u64>, inst: u32) -> u64 {
    add64(gpr[rs1(inst) as int], imm_s(inst))
}

/// A load from data address `rs1 + imm` into `rd`.
pub open spec fn load_step(gpr: Seq<u64>, pc: u64, mem: Seq<u8>, inst: u32) -> Result<
    (Seq<u64>, Seq<u8>, u64),
    Exception,
> {
    let addr = load_address(gpr, inst);
    match load_kind(funct3(inst)) {
        Some((size, signed)) => {
            let loaded = if signed {
                load_spec(mem, addr, size)
            } else {
                load_u_spec(mem, addr, size)
            };
            match loaded {
                Ok(v) => Ok((write_reg(gpr, rd(inst) as int, v), mem, add64(pc, 4))),
                Err(e) => Err(e),
            }
        },
        None => illegal(inst),
    }
}

/// A store of `rs2` at data address `rs1 + imm`.
pub open spec fn store_step(gpr: Seq<u64>, pc: u64, mem: Seq<u8>, inst: u32) -> Result<
    (Seq<u64>, Seq<u8>, u64),
    Exception,
> {
    let addr = store_address(gpr, inst);
    match store_size(funct3(inst)) {
        Some(size) => match store_spec(mem, addr, size, gpr[rs2(inst) as int]) {
            Ok(m) => Ok((gpr, m, add64(pc, 4))),
            Err(e) => Err(e),
        },
        None => illegal(inst),
    }
}

/// A register-register operation; the word forms truncate the result to 32
/// bits and sign-extend it. A `funct7` that names no operation is illegal.
pub open spec fn op_step(gpr: Seq<u64>, pc: u64, mem: Seq<u8>, inst: u32) -> Result<
    (Seq<u64>, Seq<u8>, u64),
    Exception,
> {
    let f3 = funct3(inst);
    let v = alu(f3, alt_bit(inst), gpr[rs1(inst) as int], gpr[rs2(inst) as int]);
    if !op_funct7_ok(f3, funct7(inst)) {
        illegal(inst)
    } else if opcode(inst) == R_TYPE_OP {
        Ok((write_reg(gpr, rd(inst) as int, v), mem, add64(pc, 4)))
    } else if is_word_op(f3) {
        Ok((write_reg(gpr, rd(inst) as int, sext32(v)), mem, add64(pc, 4)))
    } else {
        illegal(inst)
    }
}

/// A register-immediate operation; the word forms truncate the result to
/// 32 bits and sign-extend it. Only the right shifts read the `funct7` bit;
/// a shift whose immediate bits 11:6 name no shift is illegal.
pub open spec fn op_imm_step(gpr: Seq<u64>, pc: u64, mem: Seq<u8>, inst: u32) -> Result<
    (Seq<u64>, Seq<u8>, u64),
    Exception,
> {
    let f3 = funct3(inst);
    let v = alu(f3, f3 == SRLI_SRAI && alt_bit(inst), gpr[rs1(inst) as int], imm_i(inst));
    if !shift_imm_ok(f3, inst >> 26) {
        illegal(inst)
    } else if opcode(inst) == I_TYPE_OP {
        Ok((write_reg(gpr, rd(inst) as int, v), mem, add64(pc, 4)))
    } else if is_word_op(f3) {
        Ok((write_reg(gpr, rd(inst) as int, sext32(v)), mem, add64(pc, 4)))
    } else {
        illegal(inst)
    }
}

/// The effect of executing `inst` at `pc` with registers `gpr` and memory
/// `mem`: the new registers, the new memory and the next program counter,
/// or the exception that leaves all of them as they were.
#[verifier::opaque]
pub open spec fn execute_spec(gpr: Seq<u64>, pc: u64, mem: Seq<u8>, inst: u32) -> Result<
    (Seq<u64>, Seq<u8>, u64),
    Exception,
> {
    let op = opcode(inst);
    if op == BRANCH_OP {
        branch_step(gpr, pc, mem, inst)
    } else if op == LOAD_OP {
        load_step(gpr, pc, mem, inst)
    } else if op == STORE_OP {
        store_step(gpr, pc, mem, inst)
    } else if op == R_TYPE_OP || op == R_W_TYPE_OP {
        op_step(gpr, pc, mem, inst)
    } else if op == I_TYPE_OP || op == I_W_TYPE_OP {
        op_imm_step(gpr, pc, mem, inst)
    } else {
        illegal(inst)
    }
}

/// `new` is `old` after an instruction whose effect is `step` and whose
/// result is `r`; the program counter and the CSR bank stay as they were.
pub open spec fn steps_as(
    old: Cpu,
    new: Cpu,
    step: Result<(Seq<u64>, Seq<u8>, u64), Exception>,
    r: Result<u64, Exception>,
) -> bool {
    &&& new.wf()
    &&& new.pc == old.pc
    &&& new.csr == old.csr
    &&& match step {
        Ok((g, m, next)) => {
            &&& r == Ok::<u64, Exception>(next)
            &&& new.gpr@ == g
            &&& new.bus@ == m
        },
        Err(e) => {
            &&& r == Err::<u64, Exception>(e)
            &&& new.gpr@ == old.gpr@
            &&& new.bus@ == old.bus@
        },
    }
}

/// Why a run stopped.
#[derive(Debug, Clone, Copy, PartialEq, Eq, Structural)]
pub enum Halt {
    /// The fetched word was zero.
    EndOfProgram,
    /// The program counter reached `DRAM_END` or beyond.
    PcOutOfRange,
    /// Fetch or execute raised an exception.
    Fault(Exception),
    /// The allowed number of instructions was used up.
    StepLimit,
}

/// The state after running from `pc` for at most `fuel` instructions, and
/// why the run stopped. A fault stops the run with the state of the
/// instructions completed before it.
pub open spec fn run_spec(gpr: Seq<u64>, pc: u64, mem: Seq<u8>, fuel: nat) -> (
    Seq<u64>,
    u64,
    Seq<u8>,
    Halt,
)
    decreases fuel,
{
    if pc >= DRAM_END {
        (gpr, pc, mem, Halt::PcOutOfRange)
    } else if fuel == 0 {
        (gpr, pc, mem, Halt::StepLimit)
    } else {
        match fetch_word(mem, pc) {
            Err(e) => (gpr, pc, mem, Halt::Fault(e)),
            Ok(inst) => if inst == 0 {
                (gpr, pc, mem, Halt::EndOfProgram)
            } else {
                match execute_spec(gpr, pc, mem, inst) {
                    Err(e) => (gpr, pc, mem, Halt::Fault(e)),
                    Ok((g, m, next)) => run_spec(g, next, m, (fuel - 1) as nat),
                }
            },
        }
    }
}

/// A 64-bit little-endian RISC-V hart.
pub struct Cpu {
    pub gpr: [u64; 32],
    pub pc: u64,
    pub bus: Bus,
    pub csr: Csr,
}

impl Cpu {
    /// Register 0 holds zero, and memory and the CSR bank have their sizes.
    pub open spec fn wf(&self) -> bool {
        &&& self.gpr@[0] == 0
        &&& self.bus.wf()
        &&& self.csr.wf()
    }

    /// A hart about to run `code`, loaded at the start of memory: the program
    /// counter at `DRAM_BASE` and the stack pointer at `DRAM_END`.
    pub fn new(code: Vec<u8>) -> (r: Self)
        requires
            code@.len() <= DRAM_SIZE,
        ensures
            r.wf(),
            r.pc == DRAM_BASE,
            r.gpr@ == Seq::new(32, |i: int| if i == 2 { DRAM_END } else { 0u64 }),
            r.bus@ == initial_image(code@),
            r.csr@ == Seq::new(4096, |_i: int| 0u64),
    {
        let mut gpr = [0u64; 32];
        gpr[2] = DRAM_END;
        let r = Self { gpr, pc: DRAM_BASE, bus: Bus::new(code), csr: Csr::default() };
        assert(r.gpr@ =~= Seq::new(32, |i: int| if i == 2 { DRAM_END } else { 0u64 }));
        r
    }

    /// Writes register `rd`, discarding writes to register 0.
    fn set_reg(&mut self, rd: usize, v: u64)
        requires
            old(self).wf(),
            rd < 32,
        ensures
            final(self).wf(),
            final(self).gpr@ == write_reg(old(self).gpr@, rd as int, v),
            final(self).pc == old(self).pc,
            final(self).bus == old(self).bus,
            final(self).csr == old(self).csr,
    {
        if rd != 0 {
            self.gpr[rd] = v;
        }
        assert(self.gpr@ =~= write_reg(old(self).gpr@, rd as int, v));
    }

    /// Reads the 32-bit instruction at the program counter.
    pub fn fetch(&self) -> (r: Result<u32, Exception>)
        requires
            self.wf(),
        ensures
            r == fetch_word(self.bus@, self.pc),
    {
        let curr_pc = self.pc;
        let b0 = match self.bus.fetch_inst(curr_pc) {
            Ok(b) => b,
            Err(e) => return Err(e),
        };
        let b1 = match self.bus.fetch_inst(curr_pc + 1) {
            Ok(b) => b,
            Err(e) => return Err(e),
        };
        let b2 = match self.bus.fetch_inst(curr_pc + 2) {
            Ok(b) => b,
            Err(e) => return Err(e),
        };
        let b3 = match self.bus.fetch_inst(curr_pc + 3) {
            Ok(b) => b,
            Err(e) => return Err(e),
        };
        let curr_code = (b0 as u32) | ((b1 as u32) << 8) | ((b2 as u32) << 16) | ((b3 as u32) << 24);
        proof {
            let mem = self.bus@;
            let i = curr_pc - DRAM_BASE;
            lemma2_to64();
            assert(le_value(mem, i, 0) == 0);
            assert(le_value(mem, i, 1) == b0);
            assert(le_value(mem, i, 2) == b0 + b1 * 0x100);
            assert(le_value(mem, i, 3) == b0 + b1 * 0x100 + b2 * 0x1_0000);
            assert(le_value(mem, i, 4) == b0 + b1 * 0x100 + b2 * 0x1_0000 + b3 * 0x100_0000);
            assert((b0 as u32) | ((b1 as u32) << 8) | ((b2 as u32) << 16) | ((b3 as u32) << 24) == b0
                + b1 * 0x100 + b2 * 0x1_0000 + b3 * 0x100_0000) by (bit_vector);
        }
        Ok(curr_code)
    }

    /// Decodes `inst` and executes it: updates the registers and memory and
    /// returns the next program counter, or returns the exception and
    /// changes nothing. The program counter itself is left to the caller.
    pub fn execute(&mut self, inst: u32) -> (r: Result<u64, Exception>)
        requires
            old(self).wf(),
        ensures
            final(self).wf(),
            final(self).pc == old(self).pc,
            final(self).csr == old(self).csr,
            final(self).gpr@[0] == 0,
            match execute_spec(old(self).gpr@, old(self).pc, old(self).bus@, inst) {
                Ok((g, m, next)) => {
                    &&& r == Ok::<u64, Exception>(next)
                    &&& final(self).gpr@ == g
                    &&& final(self).bus@ == m
                },
                Err(e) => {
                    &&& r == Err::<u64, Exception>(e)
                    &&& final(self).gpr@ == old(self).gpr@
                    &&& final(self).bus@ == old(self).bus@
                },
            },
    {
        proof {
            reveal(execute_spec);
        }
        let opcode = inst & 0x7f;
        match opcode {
            BRANCH_OP => self.execute_branch(inst),
            LOAD_OP => self.execute_load(inst),
            STORE_OP => self.execute_store(inst),
            R_TYPE_OP | R_W_TYPE_OP => self.execute_op(inst),
            I_TYPE_OP | I_W_TYPE_OP => self.execute_op_imm(inst),
            _ => Err(Exception::IllegalInstruction(inst as u64)),
        }
    }

    /// Conditional branches.
    fn execute_branch(&mut self, inst: u32) -> (r: Result<u64, Exception>)
        requires
            old(self).wf(),
            opcode(inst) == BRANCH_OP,
        ensures
            steps_as(
                *old(self),
                *final(self),
                branch_step(old(self).gpr@, old(self).pc, old(self).bus@, inst),
                r,
            ),
    {
        proof {
            lemma_field_bounds(inst);
        }
        let a = self.gpr[((inst >> 15) & 0x1f) as usize];
        let b = self.gpr[((inst >> 20) & 0x1f) as usize];
        let taken = match (inst >> 12) & 0x7 {
            BEQ => a == b,
            BNE => a != b,
            BLT => (a as i64) < (b as i64),
            BGE => (a as i64) >= (b as i64),
            BLTU => a < b,
            BGEU => a >= b,
            _ => return Err(Exception::IllegalInstruction(inst as u64)),
        };
        if taken {
            Ok(self.pc.wrapping_add(imm_b_of(inst)))
        } else {
            Ok(self.pc.wrapping_add(4))
        }
    }

    /// Loads, signed and unsigned.
    fn execute_load(&mut self, inst: u32) -> (r: Result<u64, Exception>)
        requires
            old(self).wf(),
            opcode(inst) == LOAD_OP,
        ensures
            steps_as(
                *old(self),
                *final(self),
                load_step(old(self).gpr@, old(self).pc, old(self).bus@, inst),
                r,
            ),
    {
        proof {
            lemma_field_bounds(inst);
        }
        let rd = ((inst >> 7) & 0x1f) as usize;
        let addr = self.gpr[((inst >> 15) & 0x1f) as usize].wrapping_add(imm_i_of(inst));
        let (size, signed) = match load_kind_of((inst >> 12) & 0x7) {
            Some(kind) => kind,
            None => return Err(Exception::IllegalInstruction(inst as u64)),
        };
        let loaded = if signed {
            self.bus.load(addr, size)
        } else {
            self.bus.load_u(addr, size)
        };
        match loaded {
            Ok(value) => {
                self.set_reg(rd, value);
                Ok(self.pc.wrapping_add(4))
            },
            Err(e) => Err(e),
        }
    }

    /// Stores.
    fn execute_store(&mut self, inst: u32) -> (r: Result<u64, Exception>)
        requires
            old(self).wf(),
            opcode(inst) == STORE_OP,
        ensures
            steps_as(
                *old(self),
                *final(self),
                store_step(old(self).gpr@, old(self).pc, old(self).bus@, inst),
                r,
            ),
    {
        proof {
            lemma_field_bounds(inst);
        }
        let addr = self.gpr[((inst >> 15) & 0x1f) as usize].wrapping_add(imm_s_of(inst));
        let value = self.gpr[((inst >> 20) & 0x1f) as usize];
        let size = match store_size_of((inst >> 12) & 0x7) {
            Some(size) => size,
            None => return Err(Exception::IllegalInstruction(inst as u64)),
        };
        match self.bus.store(addr, size, value) {
            Ok(()) => Ok(self.pc.wrapping_add(4)),
            Err(e) => Err(e),
        }
    }

    /// Register-register operations, full width and word.
    fn execute_op(&mut self, inst: u32) -> (r: Result<u64, Exception>)
        requires
            old(self).wf(),
            opcode(inst) == R_TYPE_OP || opcode(inst) == R_W_TYPE_OP,
        ensures
            steps_as(
                *old(self),
                *final(self),
                op_step(old(self).gpr@, old(self).pc, old(self).bus@, inst),
                r,
            ),
    {
        proof {
            lemma_field_bounds(inst);
        }
        let rd = ((inst >> 7) & 0x1f) as usize;
        let a = self.gpr[((inst >> 15) & 0x1f) as usize];
        let b = self.gpr[((inst >> 20) & 0x1f) as usize];
        let funct3 = (inst >> 12) & 0x7;
        let funct7 = (inst >> 25) & 0x7f;
        let alt = funct7 & 0x20 != 0;
        let funct7_ok = if funct3 == ADD_SUB || funct3 == SRL_SRA {
            funct7 == 0 || funct7 == 0x20
        } else {
            funct7 == 0
        };
        if !funct7_ok {
            return Err(Exception::IllegalInstruction(inst as u64));
        }
        if inst & 0x7f == R_TYPE_OP {
            self.set_reg(rd, alu_of(funct3, alt, a, b));
        } else if funct3 == ADDW_SUBW || funct3 == SLLW || funct3 == SRLW_SRAW {
            self.set_reg(rd, sext32_of(alu_of(funct3, alt, a, b)));
        } else {
            return Err(Exception::IllegalInstruction(inst as u64));
        }
        Ok(self.pc.wrapping_add(4))
    }

    /// Register-immediate operations, full width and word.
    fn execute_op_imm(&mut self, inst: u32) -> (r: Result<u64, Exception>)
        requires
            old(self).wf(),
            opcode(inst) == I_TYPE_OP || opcode(inst) == I_W_TYPE_OP,
        ensures
            steps_as(
                *old(self),
                *final(self),
                op_imm_step(old(self).gpr@, old(self).pc, old(self).bus@, inst),
                r,
            ),
    {
        proof {
            lemma_field_bounds(inst);
        }
        let rd = ((inst >> 7) & 0x1f) as usize;
        let a = self.gpr[((inst >> 15) & 0x1f) as usize];
        let imm = imm_i_of(inst);
        let funct3 = (inst >> 12) & 0x7;
        let alt = ((inst >> 25) & 0x7f) & 0x20 != 0;
        let upper = inst >> 26;
        let shift_ok = if funct3 == SLLI {
            upper == 0
        } else if funct3 == SRLI_SRAI {
            upper == 0 || upper == 0x10
        } else {
            true
        };
        if !shift_ok {
            return Err(Exception::IllegalInstruction(inst as u64));
        }
        if inst & 0x7f == I_TYPE_OP {
            self.set_reg(rd, alu_of(funct3, funct3 == SRLI_SRAI && alt, a, imm));
        } else if funct3 == ADDIW || funct3 == SLLIW || funct3 == SRLIW_SRAIW {
            self.set_reg(rd, sext32_of(alu_of(funct3, funct3 == SRLIW_SRAIW && alt, a, imm)));
        } else {
            return Err(Exception::IllegalInstruction(inst as u64));
        }
        Ok(self.pc.wrapping_add(4))
    }

    /// Runs from the current program counter for at most `max_steps`
    /// instructions: stops when the program counter reaches `DRAM_END`, on a
    /// zero instruction word, or on the first exception.
    pub fn run(&mut self, max_steps: u64) -> (r: Halt)
        requires
            old(self).wf(),
        ensures
            final(self).wf(),
            final(self).csr == old(self).csr,
            (final(self).gpr@, final(self).pc, final(self).bus@, r) == run_spec(
                old(self).gpr@,
                old(self).pc,
                old(self).bus@,
                max_steps as nat,
            ),
    {
        let ghost start = run_spec(self.gpr@, self.pc, self.bus@, max_steps as nat);
        let mut remaining = max_steps;
        loop
            invariant
                self.wf(),
                self.csr == old(self).csr,
                run_spec(self.gpr@, self.pc, self.bus@, remaining as nat) == start,
                start == run_spec(old(self).gpr@, old(self).pc, old(self).bus@, max_steps as nat),
            decreases remaining,
        {
            if self.pc >= DRAM_END {
                assert(start == (self.gpr@, self.pc, self.bus@, Halt::PcOutOfRange));
                return Halt::PcOutOfRange;
            }
            if remaining == 0 {
                assert(start == (self.gpr@, self.pc, self.bus@, Halt::StepLimit));
                return Halt::StepLimit;
            }
            let inst = match self.fetch() {
                Ok(inst) => inst,
                Err(e) => {
                    assert(start == (self.gpr@, self.pc, self.bus@, Halt::Fault(e)));
                    return Halt::Fault(e);
                },
            };
            if inst == 0 {
                assert(start == (self.gpr@, self.pc, self.bus@, Halt::EndOfProgram));
                return Halt::EndOfProgram;
            }
            match self.execute(inst) {
                Ok(new_pc) => self.pc = new_pc,
                Err(e) => {
                    assert(start == (self.gpr@, self.pc, self.bus@, Halt::Fault(e)));
                    return Halt::Fault(e);
                },
            }
            remaining = remaining - 1;
        }
    }

    /// The value of the register `r` names: a calling-convention name, the
    /// raw-index form `x0`..`x31`, `fp`, or `pc`.
    pub fn observe_reg(&self, r: &str) -> (v: u64)
        requires
            register_of(r@) is Some,
        ensures
            v == match register_of(r@) {
                Some(Register::Gpr(i)) => self.gpr@[i as int],
                _ => self.pc,
            },
    {
        match parse_register(r) {
            Some(Register::Gpr(i)) => self.gpr[i],
            _ => self.pc,
        }
    }
}

/// A branch whose target lies outside the memory window makes the next
/// fetch, from that target, raise an instruction access fault carrying it.
pub proof fn lemma_branch_outside_window_faults(gpr: Seq<u64>, pc: u64, mem: Seq<u8>, inst: u32)
    requires
        opcode(inst) == BRANCH_OP,
        execute_spec(gpr, pc, mem, inst) is Ok,
        !in_window(execute_spec(gpr, pc, mem, inst)->Ok_0.2),
    ensures
        ({
            let (g, m, target) = execute_spec(gpr, pc, mem, inst)->Ok_0;
            &&& g == gpr
            &&& m == mem
            &&& fetch_word(m, target) == Err::<u32, Exception>(
                Exception::InstructionAccessFault(target),
            )
        }),
{
    reveal(execute_spec);
}

/// A load from an address outside the window raises a load access fault
/// carrying the absolute address it maps to, and the run stops there with the registers, memory
/// and program counter that the instructions before it left.
pub proof fn lemma_load_outside_window_halts(gpr: Seq<u64>, pc: u64, mem: Seq<u8>, fuel: nat)
    requires
        gpr.len() == 32,
        pc < DRAM_END,
        fuel > 0,
        fetch_word(mem, pc) is Ok,
        opcode(fetch_word(mem, pc)->Ok_0) == LOAD_OP,
        load_kind(funct3(fetch_word(mem, pc)->Ok_0)) is Some,
        !data_in_window(
            load_address(gpr, fetch_word(mem, pc)->Ok_0),
            load_kind(funct3(fetch_word(mem, pc)->Ok_0))->Some_0.0.bytes(),
        ),
    ensures
        run_spec(gpr, pc, mem, fuel) == (
            gpr,
            pc,
            mem,
            Halt::Fault(
                Exception::LoadAccessFault(mapped(load_address(gpr, fetch_word(mem, pc)->Ok_0))),
            ),
        ),
{
    reveal(execute_spec);
    lemma_field_bounds(fetch_word(mem, pc)->Ok_0);
}

/// A store to an address outside the window raises a store access fault
/// carrying the absolute address it maps to, and the run stops there with the registers, memory
/// and program counter that the instructions before it left.
pub proof fn lemma_store_outside_window_halts(gpr: Seq<u64>, pc: u64, mem: Seq<u8>, fuel: nat)
    requires
        gpr.len() == 32,
        pc < DRAM_END,
        fuel > 0,
        fetch_word(mem, pc) is Ok,
        opcode(fetch_word(mem, pc)->Ok_0) == STORE_OP,
        store_size(funct3(fetch_word(mem, pc)->Ok_0)) is Some,
        !data_in_window(
            store_address(gpr, fetch_word(mem, pc)->Ok_0),
            store_size(funct3(fetch_word(mem, pc)->Ok_0))->Some_0.bytes(),
        ),
    ensures
        run_spec(gpr, pc, mem, fuel) == (
            gpr,
            pc,
            mem,
            Halt::Fault(
                Exception::StoreAMOAccessFault(mapped(store_address(gpr, fetch_word(mem, pc)->Ok_0))),
            ),
        ),
{
    reveal(execute_spec);
    lemma_field_bounds(fetch_word(mem, pc)->Ok_0);
}

} // verus!

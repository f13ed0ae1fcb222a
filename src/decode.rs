use vstd::prelude::*;

use crate::dram::SizeType;
use crate::param::{
    ADDW_SUBW, ADD_SUB, BEQ, BGE, BGEU, BLT, BLTU, BNE, LB, LBU, LD, LH, LHU, LW, LWU, OR, SB,
    SD, SH, SLL, SLLI, SLLW, SLT, SLTU, SRLI_SRAI, SRLW_SRAW, SRL_SRA, SW, XOR,
};

verus! {

// Fixed fields of a 32-bit instruction word.
pub open spec fn opcode(inst: u32) -> u32 {
    inst & 0x7f
}

pub open spec fn rd(inst: u32) -> u32 {
    (inst >> 7) & 0x1f
}

pub open spec fn rs1(inst: u32) -> u32 {
    (inst >> 15) & 0x1f
}

pub open spec fn rs2(inst: u32) -> u32 {
    (inst >> 20) & 0x1f
}

pub open spec fn funct3(inst: u32) -> u32 {
    (inst >> 12) & 0x7
}

pub open spec fn funct7(inst: u32) -> u32 {
    (inst >> 25) & 0x7f
}

/// Bit 30 of the word (bit 5 of `funct7`): selects subtraction over addition
/// and arithmetic over logical right shift.
pub open spec fn alt_bit(inst: u32) -> bool {
    funct7(inst) & 0x20 != 0
}

/// A 12-bit field sign-extended to 64 bits.
pub open spec fn sext12(raw: u64) -> u64 {
    if raw >= 0x800 {
        (raw + 0xFFFF_FFFF_FFFF_F000) as u64
    } else {
        raw
    }
}

/// A 13-bit field sign-extended to 64 bits.
pub open spec fn sext13(raw: u64) -> u64 {
    if raw >= 0x1000 {
        (raw + 0xFFFF_FFFF_FFFF_E000) as u64
    } else {
        raw
    }
}

/// The low 32 bits of `x` sign-extended to 64 bits.
pub open spec fn sext32(x: u64) -> u64 {
    let w = x % 0x1_0000_0000;
    if w >= 0x8000_0000 {
        (w + 0xFFFF_FFFF_0000_0000) as u64
    } else {
        w
    }
}

/// Immediate of loads and register-immediate instructions: bits 31:20.
pub open spec fn imm_i(inst: u32) -> u64 {
    sext12((inst >> 20) as u64)
}

/// Immediate of stores: bits 31:25 over bits 11:7.
pub open spec fn imm_s(inst: u32) -> u64 {
    sext12((((inst >> 25) << 5) | ((inst >> 7) & 0x1f)) as u64)
}

/// Immediate of branches: bit 31 to bit 12, bit 7 to bit 11, bits 30:25 to
/// bits 10:5, bits 11:8 to bits 4:1, and bit 0 clear.
pub open spec fn imm_b(inst: u32) -> u64 {
    sext13(
        ((((inst >> 31) & 1) << 12) | (((inst >> 7) & 1) << 11) | (((inst >> 25) & 0x3f) << 5) | (((
        inst >> 8) & 0xf) << 1)) as u64,
    )
}

/// Sum modulo 2^64.
pub open spec fn add64(a: u64, b: u64) -> u64 {
    ((a + b) % 0x1_0000_0000_0000_0000) as u64
}

/// Difference modulo 2^64.
pub open spec fn sub64(a: u64, b: u64) -> u64 {
    ((a - b) % 0x1_0000_0000_0000_0000) as u64
}

/// The 64-bit operation that `funct3` selects, on operands `a` and `b`;
/// shifts take their amount from the low 6 bits of `b`.
pub open spec fn alu(f3: u32, alt: bool, a: u64, b: u64) -> u64 {
    let shamt = b & 0x3f;
    if f3 == ADD_SUB {
        if alt {
            sub64(a, b)
        } else {
            add64(a, b)
        }
    } else if f3 == SLL {
        a << shamt
    } else if f3 == SLT {
        if (a as i64) < (b as i64) {
            1
        } else {
            0
        }
    } else if f3 == SLTU {
        if a < b {
            1
        } else {
            0
        }
    } else if f3 == XOR {
        a ^ b
    } else if f3 == SRL_SRA {
        if alt {
            ((a as i64) >> shamt) as u64
        } else {
            a >> shamt
        }
    } else if f3 == OR {
        a | b
    } else {
        a & b
    }
}

/// Whether a branch with this `funct3` is taken; `None` for the two
/// encodings that name no branch.
pub open spec fn branch_taken(f3: u32, a: u64, b: u64) -> Option<bool> {
    if f3 == BEQ {
        Some(a == b)
    } else if f3 == BNE {
        Some(a != b)
    } else if f3 == BLT {
        Some((a as i64) < (b as i64))
    } else if f3 == BGE {
        Some((a as i64) >= (b as i64))
    } else if f3 == BLTU {
        Some(a < b)
    } else if f3 == BGEU {
        Some(a >= b)
    } else {
        None
    }
}

/// Width and signedness of the load with this `funct3`.
pub open spec fn load_kind(f3: u32) -> Option<(SizeType, bool)> {
    if f3 == LB {
        Some((SizeType::Byte, true))
    } else if f3 == LH {
        Some((SizeType::Half, true))
    } else if f3 == LW {
        Some((SizeType::Word, true))
    } else if f3 == LD {
        Some((SizeType::DoubleWord, true))
    } else if f3 == LBU {
        Some((SizeType::Byte, false))
    } else if f3 == LHU {
        Some((SizeType::Half, false))
    } else if f3 == LWU {
        Some((SizeType::Word, false))
    } else {
        None
    }
}

/// Width of the store with this `funct3`.
pub open spec fn store_size(f3: u32) -> Option<SizeType> {
    if f3 == SB {
        Some(SizeType::Byte)
    } else if f3 == SH {
        Some(SizeType::Half)
    } else if f3 == SW {
        Some(SizeType::Word)
    } else if f3 == SD {
        Some(SizeType::DoubleWord)
    } else {
        None
    }
}

/// Whether `funct7` names an operation for a register-register instruction
/// with this `funct3`, full width or word: 0 or 0x20 for addition/subtraction
/// and the right shifts, 0 for the rest.
pub open spec fn op_funct7_ok(f3: u32, f7: u32) -> bool {
    if f3 == ADD_SUB || f3 == SRL_SRA {
        f7 == 0 || f7 == 0x20
    } else {
        f7 == 0
    }
}

/// Whether immediate bits 11:6 (`upper`) name a shift for a
/// register-immediate instruction with this `funct3`, full width or word:
/// 0 for the left shift, 0 or 0x10 for the right shifts. Other operations
/// take all twelve bits as their immediate.
pub open spec fn shift_imm_ok(f3: u32, upper: u32) -> bool {
    if f3 == SLLI {
        upper == 0
    } else if f3 == SRLI_SRAI {
        upper == 0 || upper == 0x10
    } else {
        true
    }
}

/// The word operations exist for addition/subtraction and the shifts only.
pub open spec fn is_word_op(f3: u32) -> bool {
    f3 == ADDW_SUBW || f3 == SLLW || f3 == SRLW_SRAW
}

pub proof fn lemma_field_bounds(inst: u32)
    ensures
        opcode(inst) < 128,
        rd(inst) < 32,
        rs1(inst) < 32,
        rs2(inst) < 32,
        funct3(inst) < 8,
        inst >> 20 < 4096,
        ((inst >> 25) << 5) | ((inst >> 7) & 0x1f) < 4096,
        (((inst >> 31) & 1) << 12) | (((inst >> 7) & 1) << 11) | (((inst >> 25) & 0x3f) << 5) | (((
        inst >> 8) & 0xf) << 1) < 8192,
        opcode(inst) != 0 ==> inst != 0,
{
    assert(inst == 0 ==> inst & 0x7f == 0) by (bit_vector);
    assert(inst & 0x7f < 128 && (inst >> 7) & 0x1f < 32 && (inst >> 15) & 0x1f < 32 && (inst >> 20)
        & 0x1f < 32 && (inst >> 12) & 0x7 < 8 && inst >> 20 < 4096 && ((inst >> 25) << 5) | ((inst
        >> 7) & 0x1f) < 4096 && (((inst >> 31) & 1) << 12) | (((inst >> 7) & 1) << 11) | (((inst
        >> 25) & 0x3f) << 5) | (((inst >> 8) & 0xf) << 1) < 8192) by (bit_vector);
}

pub fn imm_i_of(inst: u32) -> (r: u64)
    ensures
        r == imm_i(inst),
{
    proof {
        lemma_field_bounds(inst);
    }
    let raw = (inst >> 20) as u64;
    if raw >= 0x800 {
        raw + 0xFFFF_FFFF_FFFF_F000
    } else {
        raw
    }
}

pub fn imm_s_of(inst: u32) -> (r: u64)
    ensures
        r == imm_s(inst),
{
    proof {
        lemma_field_bounds(inst);
    }
    let raw = (((inst >> 25) << 5) | ((inst >> 7) & 0x1f)) as u64;
    if raw >= 0x800 {
        raw + 0xFFFF_FFFF_FFFF_F000
    } else {
        raw
    }
}

pub fn imm_b_of(inst: u32) -> (r: u64)
    ensures
        r == imm_b(inst),
{
    proof {
        lemma_field_bounds(inst);
    }
    let raw = ((((inst >> 31) & 1) << 12) | (((inst >> 7) & 1) << 11) | (((inst >> 25) & 0x3f) << 5)
        | (((inst >> 8) & 0xf) << 1)) as u64;
    if raw >= 0x1000 {
        raw + 0xFFFF_FFFF_FFFF_E000
    } else {
        raw
    }
}

pub fn sext32_of(x: u64) -> (r: u64)
    ensures
        r == sext32(x),
{
    let w = x % 0x1_0000_0000;
    if w >= 0x8000_0000 {
        w + 0xFFFF_FFFF_0000_0000
    } else {
        w
    }
}

proof fn lemma_shamt_bound(b: u64)
    ensures
        b & 0x3f < 64,
{
    assert(b & 0x3f < 64) by (bit_vector);
}

/// Computes `alu(f3, alt, a, b)`.
pub fn alu_of(f3: u32, alt: bool, a: u64, b: u64) -> (r: u64)
    requires
        f3 < 8,
    ensures
        r == alu(f3, alt, a, b),
{
    let shamt = b & 0x3f;
    proof {
        lemma_shamt_bound(b);
    }
    match f3 {
        ADD_SUB => {
            if alt {
                a.wrapping_sub(b)
            } else {
                a.wrapping_add(b)
            }
        },
        SLL => a << shamt,
        SLT => {
            if (a as i64) < (b as i64) {
                1
            } else {
                0
            }
        },
        SLTU => {
            if a < b {
                1
            } else {
                0
            }
        },
        XOR => a ^ b,
        SRL_SRA => {
            if alt {
                ((a as i64) >> shamt) as u64
            } else {
                a >> shamt
            }
        },
        OR => a | b,
        _ => a & b,
    }
}

pub fn load_kind_of(f3: u32) -> (r: Option<(SizeType, bool)>)
    ensures
        r == load_kind(f3),
{
    match f3 {
        LB => Some((SizeType::Byte, true)),
        LH => Some((SizeType::Half, true)),
        LW => Some((SizeType::Word, true)),
        LD => Some((SizeType::DoubleWord, true)),
        LBU => Some((SizeType::Byte, false)),
        LHU => Some((SizeType::Half, false)),
        LWU => Some((SizeType::Word, false)),
        _ => None,
    }
}

pub fn store_size_of(f3: u32) -> (r: Option<SizeType>)
    ensures
        r == store_size(f3),
{
    match f3 {
        SB => Some(SizeType::Byte),
        SH => Some(SizeType::Half),
        SW => Some(SizeType::Word),
        SD => Some(SizeType::DoubleWord),
        _ => None,
    }
}

} // verus!

use std::ops::Not;

use rvemu::cpu::Cpu;

fn reg(s: &str) -> u32 {
    let s = s.trim();
    assert!(s.starts_with('x'), "register expected: {s}");
    s[1..].parse::<u32>().unwrap()
}

fn imm(s: &str) -> i64 {
    let s = s.trim();
    let (neg, body) = match s.strip_prefix('-') {
        Some(rest) => (true, rest),
        None => (false, s),
    };
    let v = if let Some(h) = body.strip_prefix("0x") {
        i64::from_str_radix(h, 16).unwrap()
    } else if let Some(b) = body.strip_prefix("0b") {
        i64::from_str_radix(b, 2).unwrap()
    } else {
        body.parse::<i64>().unwrap()
    };
    if neg {
        -v
    } else {
        v
    }
}

/// Splits `off(xN)` into the offset and the base register.
fn mem_operand(s: &str) -> (i64, u32) {
    let s = s.trim();
    let open = s.find('(').unwrap();
    (imm(&s[..open]), reg(&s[open + 1..s.len() - 1]))
}

fn i_type(imm: i64, rs1: u32, funct3: u32, rd: u32, opcode: u32) -> u32 {
    (((imm as u32) & 0xfff) << 20) | (rs1 << 15) | (funct3 << 12) | (rd << 7) | opcode
}

fn r_type(funct7: u32, rs2: u32, rs1: u32, funct3: u32, rd: u32, opcode: u32) -> u32 {
    (funct7 << 25) | (rs2 << 20) | (rs1 << 15) | (funct3 << 12) | (rd << 7) | opcode
}

fn s_type(imm: i64, rs2: u32, rs1: u32, funct3: u32) -> u32 {
    let imm = imm as u32;
    (((imm >> 5) & 0x7f) << 25) | (rs2 << 20) | (rs1 << 15) | (funct3 << 12) | ((imm & 0x1f) << 7)
        | 0b0100011
}

/// Assembles the few RV64I forms that the programs below use.
fn assemble(code: &str) -> Vec<u8> {
    let mut bytes = Vec::new();
    for line in code.lines() {
        let line = line.trim();
        if line.is_empty() {
            continue;
        }
        let (op, rest) = line.split_once(' ').unwrap();
        let args: Vec<&str> = rest.split(',').map(|a| a.trim()).collect();
        let word = match op {
            "addi" => i_type(imm(args[2]), reg(args[1]), 0b000, reg(args[0]), 0b0010011),
            "add" | "sub" | "and" | "or" | "xor" => {
                let (funct7, funct3) = match op {
                    "add" => (0, 0b000),
                    "sub" => (0b0100000, 0b000),
                    "xor" => (0, 0b100),
                    "or" => (0, 0b110),
                    _ => (0, 0b111),
                };
                r_type(funct7, reg(args[2]), reg(args[1]), funct3, reg(args[0]), 0b0110011)
            }
            "lb" | "lh" | "lw" | "ld" | "lbu" | "lhu" | "lwu" => {
                let funct3 = match op {
                    "lb" => 0b000,
                    "lh" => 0b001,
                    "lw" => 0b010,
                    "ld" => 0b011,
                    "lbu" => 0b100,
                    "lhu" => 0b101,
                    _ => 0b110,
                };
                let (off, base) = mem_operand(args[1]);
                i_type(off, base, funct3, reg(args[0]), 0b0000011)
            }
            "sb" | "sh" | "sw" | "sd" => {
                let funct3 = match op {
                    "sb" => 0b000,
                    "sh" => 0b001,
                    "sw" => 0b010,
                    _ => 0b011,
                };
                let (off, base) = mem_operand(args[1]);
                s_type(off, reg(args[0]), base, funct3)
            }
            _ => panic!("unknown mnemonic {op}"),
        };
        bytes.extend_from_slice(&word.to_le_bytes());
    }
    bytes
}

/// Runs `code` for one instruction per line of its text and compares the
/// named registers.
fn run_snippet<'a>(code: &str, cmp_iter: impl Iterator<Item = (&'a str, u64)>) {
    let mut cpu = Cpu::new(assemble(code));
    cpu.run(code.lines().count() as u64);
    cmp_iter.for_each(|(reg, expect)| {
        assert_eq!(cpu.observe_reg(reg), expect);
    });
}

#[test]
fn rvemu_test_test_add_addi() {
    let code = "
        addi x29, x0, 5
        addi x30, x0, 37
        add x31, x30, x29
    ";
    run_snippet(code, [("x31", 42)].into_iter());
}

#[test]
fn rvemu_test_test_add_with_neg() {
    let code = "
        addi x29, x0, -5
        addi x30, x0, 37
        add x31, x30, x29
    ";
    run_snippet(code, [("x31", 32)].into_iter());
}

#[test]
fn rvemu_test_test_sub() {
    let code = "
        addi x29, x0, 5
        addi x30, x0, 37
        sub x31, x30, x29
    ";
    run_snippet(code, [("x31", 32)].into_iter());
}

#[test]
fn rvemu_test_test_and() {
    let code = "
        addi x29, x0, 0b1010
        addi x30, x0, 0b1100
        and x31, x30, x29
    ";
    run_snippet(code, [("x31", 0b1000)].into_iter());
}

#[test]
fn rvemu_test_test_or() {
    let code = "
        addi x29, x0, 0b1010
        addi x30, x0, 0b1100
        or x31, x30, x29
    ";
    run_snippet(code, [("x31", 0b1110)].into_iter());
}

#[test]
fn rvemu_test_test_xor() {
    let code = "
        addi x29, x0, 0b1010
        addi x30, x0, 0b1100
        xor x31, x30, x29
    ";
    run_snippet(code, [("x31", 0b0110)].into_iter());
}

#[test]
fn rvemu_test_test_sb_lb() {
    let code = "
        addi x29, x0, 0x100
        addi x30, x0, 0x10
        sb x30, 0(x29)
        lb x31, 0(x29)
    ";
    run_snippet(code, [("x31", 0x10)].into_iter());
}

#[test]
fn rvemu_test_test_sh_lh() {
    let code = "
        addi x29, x0, 0x100
        addi x30, x0, 0x100
        sh x30, 0(x29)
        lh x31, 0(x29)
    ";
    run_snippet(code, [("x31", 0x100)].into_iter());
}

#[test]
fn rvemu_test_test_sw_lw() {
    let code = "
        addi x29, x0, 0x100
        addi x30, x0, 0x200
        sw x30, 0(x29)
        lw x31, 0(x29)
    ";
    run_snippet(code, [("x31", 0x200)].into_iter());
}

#[test]
fn rvemu_test_test_sd_ld() {
    let code = "
        addi x29, x0, 0x100
        addi x30, x0, 0x200
        sd x30, 0(x29)
        ld x31, 0(x29)
    ";
    run_snippet(code, [("x31", 0x200)].into_iter());
}

#[test]
fn rvemu_test_test_sw_lw_with_negative() {
    let code = "
        addi x29, x0, 0x100
        addi x30, x0, -0x200
        sw x30, 0(x29)
        lw x31, 0(x29)
    ";
    run_snippet(code, [("x31", 0x200_u64.not().wrapping_add(1))].into_iter());
}

#[test]
fn rvemu_test_test_sw_lwu_with_negative() {
    let code = "
        addi x29, x0, 0x100
        addi x30, x0, -0x200
        sw x30, 0(x29)
        lwu x31, 0(x29)
    ";
    run_snippet(code, [("x31", 0x200_u32.not().wrapping_add(1) as u64)].into_iter());
}

#[test]
fn rvemu_asm_test_test_add_addi() {
    let code = "
    addi x29, x0, 5
    addi x30, x0, 37
    add x31, x30, x29
  ";
    run_snippet(code, [("x31", 42)].into_iter());
}

#[test]
fn rvemu_asm_test_test_add_with_neg() {
    let code = "
    addi x29, x0, -5
    addi x30, x0, 37
    add x31, x30, x29
  ";
    run_snippet(code, [("x31", 32)].into_iter());
}

#[test]
fn rvemu_asm_test_test_sub() {
    let code = "
    addi x29, x0, 5
    addi x30, x0, 37
    sub x31, x30, x29
  ";
    run_snippet(code, [("x31", 32)].into_iter());
}

#[test]
fn rvemu_asm_test_test_and() {
    let code = "
    addi x29, x0, 0b1010
    addi x30, x0, 0b1100
    and x31, x30, x29
  ";
    run_snippet(code, [("x31", 0b1000)].into_iter());
}

#[test]
fn rvemu_asm_test_test_or() {
    let code = "
    addi x29, x0, 0b1010
    addi x30, x0, 0b1100
    or x31, x30, x29
  ";
    run_snippet(code, [("x31", 0b1110)].into_iter());
}

#[test]
fn rvemu_asm_test_test_xor() {
    let code = "
    addi x29, x0, 0b1010
    addi x30, x0, 0b1100
    xor x31, x30, x29
  ";
    run_snippet(code, [("x31", 0b0110)].into_iter());
}

#[test]
fn rvemu_asm_test_test_sb_lb() {
    let code = "
    addi x29, x0, 0x100
    addi x30, x0, 0x10
    sb x30, 0(x29)
    lb x31, 0(x29)
  ";
    run_snippet(code, [("x31", 0x10)].into_iter());
}

#[test]
fn rvemu_asm_test_test_sh_lh() {
    let code = "
    addi x29, x0, 0x100
    addi x30, x0, 0x100
    sh x30, 0(x29)
    lh x31, 0(x29)
  ";
    run_snippet(code, [("x31", 0x100)].into_iter());
}

#[test]
fn rvemu_asm_test_test_sw_lw() {
    let code = "
    addi x29, x0, 0x100
    addi x30, x0, 0x200
    sw x30, 0(x29)
    lw x31, 0(x29)
  ";
    run_snippet(code, [("x31", 0x200)].into_iter());
}

#[test]
fn rvemu_asm_test_test_sd_ld() {
    let code = "
    addi x29, x0, 0x100
    addi x30, x0, 0x200
    sd x30, 0(x29)
    ld x31, 0(x29)
  ";
    run_snippet(code, [("x31", 0x200)].into_iter());
}

#[test]
fn rvemu_asm_test_test_sw_lw_with_negative() {
    let code = "
    addi x29, x0, 0x100
    addi x30, x0, -0x200
    sw x30, 0(x29)
    lw x31, 0(x29)
  ";
    run_snippet(code, [("x31", 0x200_u64.not().wrapping_add(1))].into_iter());
}

#[test]
fn rvemu_asm_test_test_sw_lwu_with_negative() {
    let code = "
    addi x29, x0, 0x100
    addi x30, x0, -0x200
    sw x30, 0(x29)
    lwu x31, 0(x29)
  ";
    run_snippet(code, [("x31", 0x200_u32.not().wrapping_add(1) as u64)].into_iter());
}

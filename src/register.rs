use vstd::prelude::*;
use vstd::string::StrSliceExecFns;

verus! {

/// A register named by a string: a general-purpose register or the program
/// counter.
#[derive(Debug, Clone, Copy, PartialEq, Eq, Structural)]
pub enum Register {
    Gpr(usize),
    Pc,
}

pub open spec fn is_digit(c: char) -> bool {
    '0' <= c <= '9'
}

pub open spec fn digit(c: char) -> nat {
    (c as u32 - '0' as u32) as nat
}

/// Decimal value of a string of digits.
pub open spec fn decimal(s: Seq<char>) -> nat
    decreases s.len(),
{
    if s.len() == 0 {
        0
    } else {
        decimal(s.drop_last()) * 10 + digit(s.last())
    }
}

pub open spec fn all_digits(s: Seq<char>) -> bool {
    forall|i: int| 0 <= i < s.len() ==> is_digit(#[trigger] s[i])
}

/// The register that a calling-convention name stands for: `zero`, `ra`,
/// `sp`, `gp`, `tp`, `t0`-`t2`, `s0`/`fp`, `s1`, `a0`-`a7`, `s2`-`s11`,
/// `t3`-`t6`, in the order of the register file.
pub open spec fn abi_index(s: Seq<char>) -> Option<nat> {
    if s == seq!['z', 'e', 'r', 'o'] {
        Some(0)
    } else if s == seq!['r', 'a'] {
        Some(1)
    } else if s == seq!['s', 'p'] {
        Some(2)
    } else if s == seq!['g', 'p'] {
        Some(3)
    } else if s == seq!['t', 'p'] {
        Some(4)
    } else if s == seq!['f', 'p'] {
        Some(8)
    } else if s.len() == 2 && s[0] == 't' && '0' <= s[1] <= '2' {
        Some(5 + digit(s[1]))
    } else if s.len() == 2 && s[0] == 't' && '3' <= s[1] <= '6' {
        Some(25 + digit(s[1]))
    } else if s.len() == 2 && s[0] == 's' && '0' <= s[1] <= '1' {
        Some(8 + digit(s[1]))
    } else if s.len() == 2 && s[0] == 's' && '2' <= s[1] <= '9' {
        Some(16 + digit(s[1]))
    } else if s.len() == 3 && s[0] == 's' && s[1] == '1' && '0' <= s[2] <= '1' {
        Some(26 + digit(s[2]))
    } else if s.len() == 2 && s[0] == 'a' && '0' <= s[1] <= '7' {
        Some(10 + digit(s[1]))
    } else {
        None
    }
}

/// `x` followed by the decimal index of a register, 0 to 31.
pub open spec fn raw_index(s: Seq<char>) -> Option<nat> {
    let digits = s.subrange(1, s.len() as int);
    if s.len() >= 2 && s[0] == 'x' && all_digits(digits) && decimal(digits) <= 31 {
        Some(decimal(digits))
    } else {
        None
    }
}

/// The register a name denotes: `pc`, a calling-convention name, or the
/// raw-index form; `None` for anything else.
pub open spec fn register_of(s: Seq<char>) -> Option<Register> {
    if s == seq!['p', 'c'] {
        Some(Register::Pc)
    } else if abi_index(s) is Some {
        Some(Register::Gpr(abi_index(s)->0 as usize))
    } else if raw_index(s) is Some {
        Some(Register::Gpr(raw_index(s)->0 as usize))
    } else {
        None
    }
}

/// Appending digits never lowers a decimal value.
proof fn lemma_decimal_grows(s: Seq<char>, k: int)
    requires
        0 <= k <= s.len(),
        all_digits(s),
    ensures
        decimal(s.subrange(0, k)) <= decimal(s),
    decreases s.len() - k,
{
    if k < s.len() {
        let t = s.subrange(0, k + 1);
        assert(t.drop_last() =~= s.subrange(0, k));
        lemma_decimal_grows(s, k + 1);
    } else {
        assert(s.subrange(0, k) =~= s);
    }
}

/// The index named by the `x` form, whose digits start at position 1.
fn parse_raw_index(name: &str, n: usize) -> (r: Option<usize>)
    requires
        n == name@.len(),
    ensures
        r == match raw_index(name@) {
            Some(i) => Some(i as usize),
            None => None::<usize>,
        },
{
    let ghost s = name@;
    let ghost digits = s.subrange(1, s.len() as int);
    if n < 2 || name.get_char(0) != 'x' {
        return None;
    }
    let mut value: usize = 0;
    let mut k: usize = 1;
    while k < n
        invariant
            n == s.len(),
            s == name@,
            digits == s.subrange(1, s.len() as int),
            2 <= n,
            1 <= k <= n,
            s[0] == 'x',
            all_digits(s.subrange(1, k as int)),
            value == decimal(s.subrange(1, k as int)),
            value <= 31,
        decreases n - k,
    {
        let c = name.get_char(k);
        if c < '0' || c > '9' {
            assert(!is_digit(digits[k - 1]));
            return None;
        }
        let next = value * 10 + (c as u32 - '0' as u32) as usize;
        assert(s.subrange(1, k + 1).drop_last() =~= s.subrange(1, k as int));
        if next > 31 {
            proof {
                if all_digits(digits) {
                    lemma_decimal_grows(digits, k as int);
                    assert(digits.subrange(0, k as int) =~= s.subrange(1, k + 1));
                }
            }
            return None;
        }
        value = next;
        k = k + 1;
    }
    assert(s.subrange(1, k as int) =~= digits);
    Some(value)
}

/// Looks up a register by name.
pub fn parse_register(name: &str) -> (r: Option<Register>)
    ensures
        r == register_of(name@),
{
    let ghost s = name@;
    let n = name.unicode_len();
    if n == 2 || n == 4 || n == 3 {
        let c0 = name.get_char(0);
        let c1 = name.get_char(1);
        let c2 = if n >= 3 {
            name.get_char(2)
        } else {
            ' '
        };
        let c3 = if n == 4 {
            name.get_char(3)
        } else {
            ' '
        };
        proof {
            if n == 2 {
                assert(s =~= seq![c0, c1]);
            } else if n == 3 {
                assert(s =~= seq![c0, c1, c2]);
            } else {
                assert(s =~= seq![c0, c1, c2, c3]);
            }
        }
        if n == 2 {
            if c0 == 'p' && c1 == 'c' {
                return Some(Register::Pc);
            }
            let d = if '0' <= c1 && c1 <= '9' {
                (c1 as u32 - '0' as u32) as usize
            } else {
                0
            };
            if c0 == 'r' && c1 == 'a' {
                return Some(Register::Gpr(1));
            } else if c0 == 's' && c1 == 'p' {
                return Some(Register::Gpr(2));
            } else if c0 == 'g' && c1 == 'p' {
                return Some(Register::Gpr(3));
            } else if c0 == 't' && c1 == 'p' {
                return Some(Register::Gpr(4));
            } else if c0 == 'f' && c1 == 'p' {
                return Some(Register::Gpr(8));
            } else if c0 == 't' && '0' <= c1 && c1 <= '2' {
                return Some(Register::Gpr(5 + d));
            } else if c0 == 't' && '3' <= c1 && c1 <= '6' {
                return Some(Register::Gpr(25 + d));
            } else if c0 == 's' && '0' <= c1 && c1 <= '1' {
                return Some(Register::Gpr(8 + d));
            } else if c0 == 's' && '2' <= c1 && c1 <= '9' {
                return Some(Register::Gpr(16 + d));
            } else if c0 == 'a' && '0' <= c1 && c1 <= '7' {
                return Some(Register::Gpr(10 + d));
            }
        } else if n == 3 {
            if c0 == 's' && c1 == '1' && '0' <= c2 && c2 <= '1' {
                return Some(Register::Gpr(26 + (c2 as u32 - '0' as u32) as usize));
            }
        } else if c0 == 'z' && c1 == 'e' && c2 == 'r' && c3 == 'o' {
            return Some(Register::Gpr(0));
        }
    }
    match parse_raw_index(name, n) {
        Some(i) => Some(Register::Gpr(i)),
        None => None,
    }
}

} // verus!

//! Formatting of the register dump.
//!
//! The dump is eight lines of four registers each, ordered r0..r31. Each
//! register prints as `xNN(name)=` followed by its value as `0x` plus
//! lowercase hex digits, right-aligned with spaces to a field of 18
//! characters. `spec_dump` defines the whole text as a sequence of
//! characters; the executable builders are proved to produce exactly it.

use vstd::prelude::*;

verus! {

use vstd::arithmetic::div_mod::{
    lemma_div_is_ordered,
    lemma_fundamental_div_mod_converse,
    lemma_mod_bound,
};
use vstd::arithmetic::power2::{lemma2_to64, lemma_pow2_adds, pow2};
use vstd::string::{StrSliceExecFns, StringExecFns};

/// The sixteen digit characters, lowercase.
pub open spec fn hex_digit(d: int) -> char {
    if d == 0 {
        '0'
    } else if d == 1 {
        '1'
    } else if d == 2 {
        '2'
    } else if d == 3 {
        '3'
    } else if d == 4 {
        '4'
    } else if d == 5 {
        '5'
    } else if d == 6 {
        '6'
    } else if d == 7 {
        '7'
    } else if d == 8 {
        '8'
    } else if d == 9 {
        '9'
    } else if d == 10 {
        'a'
    } else if d == 11 {
        'b'
    } else if d == 12 {
        'c'
    } else if d == 13 {
        'd'
    } else if d == 14 {
        'e'
    } else {
        'f'
    }
}

/// The hexadecimal digits of `v`, most significant first, with no leading
/// zeros (the value 0 prints as one digit).
pub open spec fn hex_digits(v: nat) -> Seq<char>
    decreases v,
{
    if v < 16 {
        seq![hex_digit(v as int)]
    } else {
        hex_digits(v / 16) + seq![hex_digit((v % 16) as int)]
    }
}

/// `n` spaces (none for a negative count).
pub open spec fn spaces(n: int) -> Seq<char> {
    Seq::new(
        if n >= 0 {
            n as nat
        } else {
            0
        },
        |i: int| ' ',
    )
}

/// A register value as printed: `0x` plus the hex digits, right-aligned
/// with spaces to 18 characters.
pub open spec fn hex_field(v: u32) -> Seq<char> {
    spaces(16 - hex_digits(v as nat).len()) + seq!['0', 'x'] + hex_digits(v as nat)
}

/// The ABI name of register `i`, in canonical order.
pub open spec fn abi_name(i: int) -> Seq<char> {
    if i == 0 {
        "zero"@
    } else if i == 1 {
        "at"@
    } else if i == 2 {
        "v0"@
    } else if i == 3 {
        "v1"@
    } else if i == 4 {
        "a0"@
    } else if i == 5 {
        "a1"@
    } else if i == 6 {
        "a2"@
    } else if i == 7 {
        "a3"@
    } else if i == 8 {
        "t0"@
    } else if i == 9 {
        "t1"@
    } else if i == 10 {
        "t2"@
    } else if i == 11 {
        "t3"@
    } else if i == 12 {
        "t4"@
    } else if i == 13 {
        "t5"@
    } else if i == 14 {
        "t6"@
    } else if i == 15 {
        "t7"@
    } else if i == 16 {
        "s0"@
    } else if i == 17 {
        "s1"@
    } else if i == 18 {
        "s2"@
    } else if i == 19 {
        "s3"@
    } else if i == 20 {
        "s4"@
    } else if i == 21 {
        "s5"@
    } else if i == 22 {
        "s6"@
    } else if i == 23 {
        "s7"@
    } else if i == 24 {
        "t8"@
    } else if i == 25 {
        "t9"@
    } else if i == 26 {
        "k0"@
    } else if i == 27 {
        "k1"@
    } else if i == 28 {
        "gp"@
    } else if i == 29 {
        "sp"@
    } else if i == 30 {
        "fp"@
    } else {
        "ra"@
    }
}

/// One register's dump entry: `xNN(name)=` and the padded hex value.
pub open spec fn reg_entry(i: int, v: u32) -> Seq<char> {
    seq!['x', hex_digit(i / 10), hex_digit(i % 10), '('] + abi_name(i) + seq![')', '=']
        + hex_field(v)
}

/// One dump line: a newline, then four entries separated by single spaces.
pub open spec fn dump_line(regs: Seq<u32>, base: int) -> Seq<char> {
    seq!['\n'] + reg_entry(base, regs[base]) + seq![' '] + reg_entry(base + 1, regs[base + 1])
        + seq![' '] + reg_entry(base + 2, regs[base + 2]) + seq![' '] + reg_entry(
        base + 3,
        regs[base + 3],
    )
}

/// The first `lines` dump lines.
pub open spec fn dump_prefix(regs: Seq<u32>, lines: int) -> Seq<char>
    decreases lines,
{
    if lines <= 0 {
        Seq::empty()
    } else {
        dump_prefix(regs, lines - 1) + dump_line(regs, 4 * (lines - 1))
    }
}

/// The whole register dump: eight lines covering r0..r31.
pub open spec fn spec_dump(regs: Seq<u32>) -> Seq<char> {
    dump_prefix(regs, 8)
}

/// A value below 16^k prints in at most k digits.
proof fn lemma_hex_digits_len(v: nat, k: nat)
    requires
        k >= 1,
        v < pow2(4 * k),
    ensures
        1 <= hex_digits(v).len() <= k,
    decreases k,
{
    lemma2_to64();
    if v < 16 {
    } else {
        lemma_pow2_adds(4 * (k - 1) as nat, 4);
        // v / 16 < 16^(k-1), because v <= 16^k - 1 and (16 * m - 1) / 16 == m - 1
        lemma_div_is_ordered(v as int, pow2(4 * k) as int - 1, 16);
        lemma_fundamental_div_mod_converse(
            pow2(4 * k) as int - 1,
            16,
            pow2(4 * (k - 1) as nat) as int - 1,
            15,
        );
        lemma_hex_digits_len(v / 16, (k - 1) as nat);
    }
}

/// One digit as a string slice.
fn hex_digit_str(d: u32) -> (s: &'static str)
    requires
        d < 16,
    ensures
        s@ == seq![hex_digit(d as int)],
{
    proof {
        reveal_strlit("0");
        reveal_strlit("1");
        reveal_strlit("2");
        reveal_strlit("3");
        reveal_strlit("4");
        reveal_strlit("5");
        reveal_strlit("6");
        reveal_strlit("7");
        reveal_strlit("8");
        reveal_strlit("9");
        reveal_strlit("a");
        reveal_strlit("b");
        reveal_strlit("c");
        reveal_strlit("d");
        reveal_strlit("e");
        reveal_strlit("f");
    }
    let s: &'static str = match d {
        0 => "0",
        1 => "1",
        2 => "2",
        3 => "3",
        4 => "4",
        5 => "5",
        6 => "6",
        7 => "7",
        8 => "8",
        9 => "9",
        10 => "a",
        11 => "b",
        12 => "c",
        13 => "d",
        14 => "e",
        _ => "f",
    };
    proof {
        assert(s@ =~= seq![hex_digit(d as int)]);
    }
    s
}

/// The hex digits of `v`, most significant first, no leading zeros.
fn hex_string(v: u32) -> (s: String)
    ensures
        s@ == hex_digits(v as nat),
    decreases v,
{
    if v < 16 {
        hex_digit_str(v).to_owned()
    } else {
        let mut s = hex_string(v / 16);
        proof {
            lemma_mod_bound(v as int, 16);
        }
        s.append(hex_digit_str(v % 16));
        s
    }
}

/// The 18-character right-aligned `0x...` field for a register value.
pub fn hex_field_string(v: u32) -> (s: String)
    ensures
        s@ == hex_field(v),
{
    proof {
        lemma2_to64();
        lemma_hex_digits_len(v as nat, 8);
        reveal_strlit(" ");
        reveal_strlit("0x");
    }
    let digits = hex_string(v);
    let dlen: usize = digits.as_str().unicode_len();
    let pad: usize = 16 - dlen;
    let mut s = String::new();
    let mut p: usize = 0;
    while p < pad
        invariant
            p <= pad,
            s@ == spaces(p as int),
        decreases pad - p,
    {
        s.append(" ");
        p += 1;
        proof {
            reveal_strlit(" ");
            assert(s@ =~= spaces(p as int));
        }
    }
    s.append("0x");
    s.append(digits.as_str());
    proof {
        assert(s@ =~= hex_field(v));
    }
    s
}

/// The ABI name of register `i` as a string slice.
fn abi_str(i: usize) -> (s: &'static str)
    requires
        i < 32,
    ensures
        s@ == abi_name(i as int),
{
    proof {
        reveal_strlit("zero");
        reveal_strlit("at");
        reveal_strlit("v0");
        reveal_strlit("v1");
        reveal_strlit("a0");
        reveal_strlit("a1");
        reveal_strlit("a2");
        reveal_strlit("a3");
        reveal_strlit("t0");
        reveal_strlit("t1");
        reveal_strlit("t2");
        reveal_strlit("t3");
        reveal_strlit("t4");
        reveal_strlit("t5");
        reveal_strlit("t6");
        reveal_strlit("t7");
        reveal_strlit("s0");
        reveal_strlit("s1");
        reveal_strlit("s2");
        reveal_strlit("s3");
        reveal_strlit("s4");
        reveal_strlit("s5");
        reveal_strlit("s6");
        reveal_strlit("s7");
        reveal_strlit("t8");
        reveal_strlit("t9");
        reveal_strlit("k0");
        reveal_strlit("k1");
        reveal_strlit("gp");
        reveal_strlit("sp");
        reveal_strlit("fp");
        reveal_strlit("ra");
    }
    match i {
        0 => "zero",
        1 => "at",
        2 => "v0",
        3 => "v1",
        4 => "a0",
        5 => "a1",
        6 => "a2",
        7 => "a3",
        8 => "t0",
        9 => "t1",
        10 => "t2",
        11 => "t3",
        12 => "t4",
        13 => "t5",
        14 => "t6",
        15 => "t7",
        16 => "s0",
        17 => "s1",
        18 => "s2",
        19 => "s3",
        20 => "s4",
        21 => "s5",
        22 => "s6",
        23 => "s7",
        24 => "t8",
        25 => "t9",
        26 => "k0",
        27 => "k1",
        28 => "gp",
        29 => "sp",
        30 => "fp",
        _ => "ra",
    }
}

/// One register's dump entry as a string.
pub fn reg_entry_string(i: usize, v: u32) -> (s: String)
    requires
        i < 32,
    ensures
        s@ == reg_entry(i as int, v),
{
    proof {
        reveal_strlit("x");
        reveal_strlit("(");
        reveal_strlit(")=");
    }
    let mut s = String::new();
    s.append("x");
    s.append(hex_digit_str((i / 10) as u32));
    s.append(hex_digit_str((i % 10) as u32));
    s.append("(");
    s.append(abi_str(i));
    s.append(")=");
    let field = hex_field_string(v);
    s.append(field.as_str());
    proof {
        assert(s@ =~= reg_entry(i as int, v));
    }
    s
}

} // verus!

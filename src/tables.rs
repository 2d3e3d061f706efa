//! The register table and the instruction catalog.

use vstd::prelude::*;

use vstd::slice::slice_subrange;

use crate::text::{chars_of, is_blank};

verus! {

/// The operand shape and encoding family of an instruction.
#[derive(Clone, Copy, Debug, PartialEq, Eq, Structural)]
pub enum Syntax {
    ArithLog,
    DivMult,
    Shift,
    ShiftV,
    JumpR,
    MoveFrom,
    MoveTo,
    ArithLogI,
    LoadI,
    Branch,
    BranchZ,
    LoadStore,
    Jump,
    Trap,
    Syscall,
    S2ArithLog,
    RegImmBranch,
    CoProc1Move,
    Break,
    AtomicLoadStore,
}

/// One catalog entry: a mnemonic, its syntax class and its opcode or function value.
/// A `code` of `-1` marks the entry that stands for an unknown mnemonic.
#[derive(Clone, Copy, Debug)]
pub struct InstrCode<'a> {
    pub name: &'a str,
    pub syntax: Syntax,
    pub code: i8,
}

/// Number of entries in the catalog, the sentinel included.
pub const N_CODES: usize = 53;

/// Number of registers.
pub const N_REGS: usize = 32;

/// The catalog entry at index `k`; index 0 is the sentinel for unknown mnemonics.
pub open spec fn code_entry(k: int) -> InstrCode<'static> {
    if k == 0 {
        InstrCode { name: "null", syntax: Syntax::Syscall, code: -1i8 }
    } else if k == 1 {
        InstrCode { name: "add", syntax: Syntax::ArithLog, code: 32i8 }
    } else if k == 2 {
        InstrCode { name: "addu", syntax: Syntax::ArithLog, code: 33i8 }
    } else if k == 3 {
        InstrCode { name: "addi", syntax: Syntax::ArithLogI, code: 8i8 }
    } else if k == 4 {
        InstrCode { name: "addiu", syntax: Syntax::ArithLogI, code: 9i8 }
    } else if k == 5 {
        InstrCode { name: "and", syntax: Syntax::ArithLog, code: 36i8 }
    } else if k == 6 {
        InstrCode { name: "andi", syntax: Syntax::ArithLogI, code: 12i8 }
    } else if k == 7 {
        InstrCode { name: "div", syntax: Syntax::DivMult, code: 26i8 }
    } else if k == 8 {
        InstrCode { name: "divu", syntax: Syntax::DivMult, code: 27i8 }
    } else if k == 9 {
        InstrCode { name: "mult", syntax: Syntax::DivMult, code: 24i8 }
    } else if k == 10 {
        InstrCode { name: "multu", syntax: Syntax::DivMult, code: 25i8 }
    } else if k == 11 {
        InstrCode { name: "nor", syntax: Syntax::ArithLog, code: 39i8 }
    } else if k == 12 {
        InstrCode { name: "or", syntax: Syntax::ArithLog, code: 37i8 }
    } else if k == 13 {
        InstrCode { name: "ori", syntax: Syntax::ArithLogI, code: 13i8 }
    } else if k == 14 {
        InstrCode { name: "sll", syntax: Syntax::Shift, code: 0i8 }
    } else if k == 15 {
        InstrCode { name: "sllv", syntax: Syntax::ShiftV, code: 4i8 }
    } else if k == 16 {
        InstrCode { name: "sra", syntax: Syntax::Shift, code: 3i8 }
    } else if k == 17 {
        InstrCode { name: "srav", syntax: Syntax::ShiftV, code: 7i8 }
    } else if k == 18 {
        InstrCode { name: "srl", syntax: Syntax::Shift, code: 2i8 }
    } else if k == 19 {
        InstrCode { name: "srlv", syntax: Syntax::ShiftV, code: 6i8 }
    } else if k == 20 {
        InstrCode { name: "sub", syntax: Syntax::ArithLog, code: 34i8 }
    } else if k == 21 {
        InstrCode { name: "subu", syntax: Syntax::ArithLog, code: 35i8 }
    } else if k == 22 {
        InstrCode { name: "xor", syntax: Syntax::ArithLog, code: 38i8 }
    } else if k == 23 {
        InstrCode { name: "xori", syntax: Syntax::ArithLogI, code: 14i8 }
    } else if k == 24 {
        InstrCode { name: "lhi", syntax: Syntax::LoadI, code: 25i8 }
    } else if k == 25 {
        InstrCode { name: "llo", syntax: Syntax::LoadI, code: 24i8 }
    } else if k == 26 {
        InstrCode { name: "slt", syntax: Syntax::ArithLog, code: 42i8 }
    } else if k == 27 {
        InstrCode { name: "sltu", syntax: Syntax::ArithLog, code: 41i8 }
    } else if k == 28 {
        InstrCode { name: "slti", syntax: Syntax::ArithLogI, code: 10i8 }
    } else if k == 29 {
        InstrCode { name: "sltiu", syntax: Syntax::ArithLogI, code: 9i8 }
    } else if k == 30 {
        InstrCode { name: "beq", syntax: Syntax::Branch, code: 4i8 }
    } else if k == 31 {
        InstrCode { name: "bne", syntax: Syntax::Branch, code: 5i8 }
    } else if k == 32 {
        InstrCode { name: "blez", syntax: Syntax::BranchZ, code: 6i8 }
    } else if k == 33 {
        InstrCode { name: "bgtz", syntax: Syntax::BranchZ, code: 7i8 }
    } else if k == 34 {
        InstrCode { name: "j", syntax: Syntax::Jump, code: 2i8 }
    } else if k == 35 {
        InstrCode { name: "jal", syntax: Syntax::Jump, code: 3i8 }
    } else if k == 36 {
        InstrCode { name: "jr", syntax: Syntax::JumpR, code: 8i8 }
    } else if k == 37 {
        InstrCode { name: "jalr", syntax: Syntax::JumpR, code: 9i8 }
    } else if k == 38 {
        InstrCode { name: "lb", syntax: Syntax::LoadStore, code: 32i8 }
    } else if k == 39 {
        InstrCode { name: "lbu", syntax: Syntax::LoadStore, code: 36i8 }
    } else if k == 40 {
        InstrCode { name: "lh", syntax: Syntax::LoadStore, code: 33i8 }
    } else if k == 41 {
        InstrCode { name: "lhu", syntax: Syntax::LoadStore, code: 37i8 }
    } else if k == 42 {
        InstrCode { name: "lw", syntax: Syntax::LoadStore, code: 35i8 }
    } else if k == 43 {
        InstrCode { name: "sb", syntax: Syntax::LoadStore, code: 40i8 }
    } else if k == 44 {
        InstrCode { name: "sh", syntax: Syntax::LoadStore, code: 41i8 }
    } else if k == 45 {
        InstrCode { name: "sw", syntax: Syntax::LoadStore, code: 43i8 }
    } else if k == 46 {
        InstrCode { name: "mfhi", syntax: Syntax::MoveFrom, code: 16i8 }
    } else if k == 47 {
        InstrCode { name: "mflo", syntax: Syntax::MoveFrom, code: 18i8 }
    } else if k == 48 {
        InstrCode { name: "mthi", syntax: Syntax::MoveTo, code: 17i8 }
    } else if k == 49 {
        InstrCode { name: "mtlo", syntax: Syntax::MoveTo, code: 19i8 }
    } else if k == 50 {
        InstrCode { name: "trap", syntax: Syntax::Trap, code: 26i8 }
    } else if k == 51 {
        InstrCode { name: "syscall", syntax: Syntax::Syscall, code: 12i8 }
    } else if k == 52 {
        InstrCode { name: "mul", syntax: Syntax::S2ArithLog, code: 2i8 }
    } else {
        InstrCode { name: "null", syntax: Syntax::Syscall, code: -1i8 }
    }
}

/// The name of register `i`, without its `$` sigil.
pub open spec fn reg_label(i: int) -> &'static str {
    if i == 0 {
        "zero"
    } else if i == 1 {
        "at"
    } else if i == 2 {
        "v0"
    } else if i == 3 {
        "v1"
    } else if i == 4 {
        "a0"
    } else if i == 5 {
        "a1"
    } else if i == 6 {
        "a2"
    } else if i == 7 {
        "a3"
    } else if i == 8 {
        "t0"
    } else if i == 9 {
        "t1"
    } else if i == 10 {
        "t2"
    } else if i == 11 {
        "t3"
    } else if i == 12 {
        "t4"
    } else if i == 13 {
        "t5"
    } else if i == 14 {
        "t6"
    } else if i == 15 {
        "t7"
    } else if i == 16 {
        "s0"
    } else if i == 17 {
        "s1"
    } else if i == 18 {
        "s2"
    } else if i == 19 {
        "s3"
    } else if i == 20 {
        "s4"
    } else if i == 21 {
        "s5"
    } else if i == 22 {
        "s6"
    } else if i == 23 {
        "s7"
    } else if i == 24 {
        "t8"
    } else if i == 25 {
        "t9"
    } else if i == 26 {
        "k0"
    } else if i == 27 {
        "k1"
    } else if i == 28 {
        "gp"
    } else if i == 29 {
        "sp"
    } else if i == 30 {
        "fp"
    } else if i == 31 {
        "ra"
    } else {
        "zero"
    }
}

/// The catalog entry at index `k`.
fn catalog_entry(k: usize) -> (r: InstrCode<'static>)
    requires
        k < N_CODES,
    ensures
        r == code_entry(k as int),
{
    match k {
        0 => InstrCode { name: "null", syntax: Syntax::Syscall, code: -1i8 },
        1 => InstrCode { name: "add", syntax: Syntax::ArithLog, code: 32i8 },
        2 => InstrCode { name: "addu", syntax: Syntax::ArithLog, code: 33i8 },
        3 => InstrCode { name: "addi", syntax: Syntax::ArithLogI, code: 8i8 },
        4 => InstrCode { name: "addiu", syntax: Syntax::ArithLogI, code: 9i8 },
        5 => InstrCode { name: "and", syntax: Syntax::ArithLog, code: 36i8 },
        6 => InstrCode { name: "andi", syntax: Syntax::ArithLogI, code: 12i8 },
        7 => InstrCode { name: "div", syntax: Syntax::DivMult, code: 26i8 },
        8 => InstrCode { name: "divu", syntax: Syntax::DivMult, code: 27i8 },
        9 => InstrCode { name: "mult", syntax: Syntax::DivMult, code: 24i8 },
        10 => InstrCode { name: "multu", syntax: Syntax::DivMult, code: 25i8 },
        11 => InstrCode { name: "nor", syntax: Syntax::ArithLog, code: 39i8 },
        12 => InstrCode { name: "or", syntax: Syntax::ArithLog, code: 37i8 },
        13 => InstrCode { name: "ori", syntax: Syntax::ArithLogI, code: 13i8 },
        14 => InstrCode { name: "sll", syntax: Syntax::Shift, code: 0i8 },
        15 => InstrCode { name: "sllv", syntax: Syntax::ShiftV, code: 4i8 },
        16 => InstrCode { name: "sra", syntax: Syntax::Shift, code: 3i8 },
        17 => InstrCode { name: "srav", syntax: Syntax::ShiftV, code: 7i8 },
        18 => InstrCode { name: "srl", syntax: Syntax::Shift, code: 2i8 },
        19 => InstrCode { name: "srlv", syntax: Syntax::ShiftV, code: 6i8 },
        20 => InstrCode { name: "sub", syntax: Syntax::ArithLog, code: 34i8 },
        21 => InstrCode { name: "subu", syntax: Syntax::ArithLog, code: 35i8 },
        22 => InstrCode { name: "xor", syntax: Syntax::ArithLog, code: 38i8 },
        23 => InstrCode { name: "xori", syntax: Syntax::ArithLogI, code: 14i8 },
        24 => InstrCode { name: "lhi", syntax: Syntax::LoadI, code: 25i8 },
        25 => InstrCode { name: "llo", syntax: Syntax::LoadI, code: 24i8 },
        26 => InstrCode { name: "slt", syntax: Syntax::ArithLog, code: 42i8 },
        27 => InstrCode { name: "sltu", syntax: Syntax::ArithLog, code: 41i8 },
        28 => InstrCode { name: "slti", syntax: Syntax::ArithLogI, code: 10i8 },
        29 => InstrCode { name: "sltiu", syntax: Syntax::ArithLogI, code: 9i8 },
        30 => InstrCode { name: "beq", syntax: Syntax::Branch, code: 4i8 },
        31 => InstrCode { name: "bne", syntax: Syntax::Branch, code: 5i8 },
        32 => InstrCode { name: "blez", syntax: Syntax::BranchZ, code: 6i8 },
        33 => InstrCode { name: "bgtz", syntax: Syntax::BranchZ, code: 7i8 },
        34 => InstrCode { name: "j", syntax: Syntax::Jump, code: 2i8 },
        35 => InstrCode { name: "jal", syntax: Syntax::Jump, code: 3i8 },
        36 => InstrCode { name: "jr", syntax: Syntax::JumpR, code: 8i8 },
        37 => InstrCode { name: "jalr", syntax: Syntax::JumpR, code: 9i8 },
        38 => InstrCode { name: "lb", syntax: Syntax::LoadStore, code: 32i8 },
        39 => InstrCode { name: "lbu", syntax: Syntax::LoadStore, code: 36i8 },
        40 => InstrCode { name: "lh", syntax: Syntax::LoadStore, code: 33i8 },
        41 => InstrCode { name: "lhu", syntax: Syntax::LoadStore, code: 37i8 },
        42 => InstrCode { name: "lw", syntax: Syntax::LoadStore, code: 35i8 },
        43 => InstrCode { name: "sb", syntax: Syntax::LoadStore, code: 40i8 },
        44 => InstrCode { name: "sh", syntax: Syntax::LoadStore, code: 41i8 },
        45 => InstrCode { name: "sw", syntax: Syntax::LoadStore, code: 43i8 },
        46 => InstrCode { name: "mfhi", syntax: Syntax::MoveFrom, code: 16i8 },
        47 => InstrCode { name: "mflo", syntax: Syntax::MoveFrom, code: 18i8 },
        48 => InstrCode { name: "mthi", syntax: Syntax::MoveTo, code: 17i8 },
        49 => InstrCode { name: "mtlo", syntax: Syntax::MoveTo, code: 19i8 },
        50 => InstrCode { name: "trap", syntax: Syntax::Trap, code: 26i8 },
        51 => InstrCode { name: "syscall", syntax: Syntax::Syscall, code: 12i8 },
        52 => InstrCode { name: "mul", syntax: Syntax::S2ArithLog, code: 2i8 },
        _ => InstrCode { name: "null", syntax: Syntax::Syscall, code: -1i8 },
    }
}

/// The name of register `i`.
fn reg_name(i: usize) -> (r: &'static str)
    requires
        i < N_REGS,
    ensures
        r == reg_label(i as int),
{
    match i {
        0 => "zero",
        1 => "at",
        2 => "v0",
        3 => "v1",
        4 => "a0",
        5 => "a1",
        6 => "a2",
        7 => "a3",
        8 => "t0",
        9 => "t1",
        10 => "t2",
        11 => "t3",
        12 => "t4",
        13 => "t5",
        14 => "t6",
        15 => "t7",
        16 => "s0",
        17 => "s1",
        18 => "s2",
        19 => "s3",
        20 => "s4",
        21 => "s5",
        22 => "s6",
        23 => "s7",
        24 => "t8",
        25 => "t9",
        26 => "k0",
        27 => "k1",
        28 => "gp",
        29 => "sp",
        30 => "fp",
        31 => "ra",
        _ => "zero",
    }
}

/// Whether the character sequences `a` and `b` are equal.
pub(crate) fn chars_eq(a: &[char], b: &[char]) -> (r: bool)
    ensures
        r == (a@ == b@),
{
    if a.len() != b.len() {
        return false;
    }
    let mut i: usize = 0;
    while i < a.len()
        invariant
            a@.len() == b@.len(),
            i <= a@.len(),
            forall|j: int| 0 <= j < i ==> a@[j] == b@[j],
        decreases a@.len() - i,
    {
        if a[i] != b[i] {
            return false;
        }
        i = i + 1;
    }
    proof {
        assert(a@ =~= b@);
    }
    true
}

/// Index of the first catalog entry from `k` on whose name is `w`; 0 if there is none.
pub open spec fn find_code(w: Seq<char>, k: int) -> int
    decreases N_CODES - k,
{
    if k < 0 || k >= N_CODES {
        0
    } else if code_entry(k).name@ == w {
        k
    } else {
        find_code(w, k + 1)
    }
}

/// Index of the first blank in `s`, or its length.
pub open spec fn word_end(s: Seq<char>, i: int) -> int
    decreases s.len() - i,
{
    if i < 0 || i >= s.len() {
        s.len() as int
    } else if is_blank(s[i]) {
        i
    } else {
        word_end(s, i + 1)
    }
}

/// The text of `s` before its first blank.
pub open spec fn first_word(s: Seq<char>) -> Seq<char> {
    s.take(word_end(s, 0))
}

/// Position of the first blank of `c`, or its length.
pub(crate) fn first_blank(c: &[char]) -> (r: usize)
    ensures
        r == word_end(c@, 0),
        r <= c@.len(),
{
    let mut i: usize = 0;
    while i < c.len() && !(c[i] == ' ' || c[i] == '\t')
        invariant
            i <= c@.len(),
            word_end(c@, 0) == word_end(c@, i as int),
        decreases c@.len() - i,
    {
        i = i + 1;
    }
    i
}

/// The catalog entry named by the first word of `c`, or the sentinel.
pub(crate) fn code_of_chars(c: &[char]) -> (r: InstrCode<'static>)
    ensures
        r == code_entry(find_code(first_word(c@), 0)),
{
    let e = first_blank(c);
    let word = slice_subrange(c, 0, e);
    let mut k: usize = 0;
    while k < N_CODES
        invariant
            k <= N_CODES,
            word@ == first_word(c@),
            find_code(word@, 0) == find_code(word@, k as int),
        decreases N_CODES - k,
    {
        let entry = catalog_entry(k);
        let name = chars_of(entry.name);
        if chars_eq(name.as_slice(), word) {
            return entry;
        }
        k = k + 1;
    }
    catalog_entry(0)
}

/// The catalog entry named by the first word of `line`, or the sentinel (code `-1`).
pub fn get_code(line: &str) -> (r: InstrCode<'static>)
    ensures
        r == code_entry(find_code(first_word(line@), 0)),
{
    let c = chars_of(line);
    code_of_chars(c.as_slice())
}

/// The index of the register that `s` names: a `$` followed by a name of the table.
pub open spec fn reg_index(s: Seq<char>) -> Option<int> {
    if s.len() > 0 && s[0] == '$' {
        find_reg(s.drop_first(), 0)
    } else {
        None
    }
}

/// Index of the first register from `i` on whose name is `n`.
pub open spec fn find_reg(n: Seq<char>, i: int) -> Option<int>
    decreases N_REGS - i,
{
    if i < 0 || i >= N_REGS {
        None
    } else if reg_label(i)@ == n {
        Some(i)
    } else {
        find_reg(n, i + 1)
    }
}

/// The index of the register named by `arg` (`$` and a name of the table).
pub fn as_register(arg: &str) -> (r: Result<i8, ()>)
    ensures
        r matches Ok(i) ==> reg_index(arg@) == Some(i as int),
        r is Err ==> reg_index(arg@) is None,
{
    let c = chars_of(arg);
    if c.len() == 0 || c[0] != '$' {
        return Err(());
    }
    let name = slice_subrange(c.as_slice(), 1, c.len());
    proof {
        assert(name@ =~= arg@.drop_first());
    }
    let mut i: usize = 0;
    while i < N_REGS
        invariant
            i <= N_REGS,
            name@ == arg@.drop_first(),
            arg@.len() > 0 && arg@[0] == '$',
            find_reg(name@, 0) == find_reg(name@, i as int),
        decreases N_REGS - i,
    {
        let r = chars_of(reg_name(i));
        if chars_eq(r.as_slice(), name) {
            return Ok(i as i8);
        }
        i = i + 1;
    }
    Err(())
}

} // verus!

//! The encoder: from a catalog entry and resolved operands to an `Encoding`.

use vstd::prelude::*;

use crate::diag::ErrorKind;
use crate::operands::{Arg, ArgView, Args};
use crate::pack::{fits, layout_of, lemma_pack_round_trip, pack, unpack, Encoding, Layout};
use crate::symbols::{lookup_in, LabelTable};
use crate::tables::{InstrCode, Syntax};

verus! {

/// An encoding, and whether every operand it reads could be resolved.
/// When one could not, `enc` is the zero-filled fallback of the syntax class.
#[derive(Clone, Copy, Debug, PartialEq, Eq, Structural)]
pub struct Encoded {
    pub enc: Encoding,
    pub resolved: bool,
}

/// The value an operand stands for: a register's index, a number's bits, a label's address.
pub open spec fn resolve(a: ArgView, b: Seq<(Seq<char>, u32)>) -> Option<u32> {
    match a {
        ArgView::Reg(r) => Some(r as u32),
        ArgView::Imm(n) => Some(n as u32),
        ArgView::Label(l) => lookup_in(b, l),
    }
}

/// The operands in source order.
pub open spec fn arg_seq(args: Args<ArgView>) -> Seq<ArgView> {
    match args {
        Args::Three(a, b, c) => seq![a, b, c],
        Args::Two(a, b) => seq![a, b],
        Args::One(a) => seq![a],
        Args::Zero => Seq::empty(),
    }
}

/// The values of all operands, if each one resolves.
pub open spec fn resolved_values(args: Args<ArgView>, b: Seq<(Seq<char>, u32)>) -> Option<Seq<u32>> {
    let s = arg_seq(args);
    if forall|i: int| 0 <= i < s.len() ==> resolve(#[trigger] s[i], b) is Some {
        Some(Seq::new(s.len(), |i: int| resolve(s[i], b)->0))
    } else {
        None
    }
}

/// The number of operands that a syntax class takes.
pub open spec fn arity(s: Syntax) -> nat {
    match s {
        Syntax::ArithLog | Syntax::Shift | Syntax::ShiftV | Syntax::ArithLogI | Syntax::Branch
        | Syntax::LoadStore | Syntax::S2ArithLog | Syntax::AtomicLoadStore => 3,
        Syntax::DivMult | Syntax::LoadI | Syntax::BranchZ | Syntax::RegImmBranch
        | Syntax::CoProc1Move => 2,
        Syntax::JumpR | Syntax::MoveTo | Syntax::MoveFrom | Syntax::Jump | Syntax::Trap => 1,
        Syntax::Syscall | Syntax::Break => 0,
    }
}

/// The PC-relative displacement from `adr` to `target`, in words, less one, cut to 16 bits.
pub open spec fn disp(target: u32, adr: u32) -> i16 {
    ((target - adr) / 4 - 1) as i16
}

/// `x / 2`, rounded toward zero.
pub open spec fn half_toward_zero(x: int) -> int {
    if x >= 0 {
        x / 2
    } else {
        -((-x) / 2)
    }
}

/// The encoding an instruction gets when one of its operands does not resolve.
pub open spec fn fallback(instr: InstrCode) -> Encoding {
    let c = instr.code;
    match instr.syntax {
        Syntax::ArithLogI | Syntax::LoadI | Syntax::Branch | Syntax::BranchZ | Syntax::LoadStore
        | Syntax::RegImmBranch => Encoding::Immediate(c, 0, 0, 0),
        Syntax::Jump | Syntax::Trap => Encoding::Jump(c, 0),
        Syntax::Syscall => Encoding::Jump(0, c as i32),
        Syntax::S2ArithLog => Encoding::Register(28, 0, 0, 0, 0, c),
        Syntax::CoProc1Move => Encoding::Register(17, c, 0, 0, 0, 0),
        Syntax::AtomicLoadStore => Encoding::Register(31, 0, 0, 0, 0, c),
        _ => Encoding::Register(0, 0, 0, 0, 0, c),
    }
}

/// The encoding of `instr` at address `adr` whose operands have the values `v`, in source order.
pub open spec fn encode_resolved(instr: InstrCode, v: Seq<u32>, adr: u32) -> Encoding {
    let c = instr.code;
    match instr.syntax {
        Syntax::ArithLog => Encoding::Register(0, v[1] as i8, v[2] as i8, v[0] as i8, 0, c),
        Syntax::DivMult => Encoding::Register(0, v[0] as i8, v[1] as i8, 0, 0, c),
        Syntax::Shift => Encoding::Register(0, 0, v[1] as i8, v[0] as i8, v[2] as i8, c),
        Syntax::ShiftV => Encoding::Register(0, v[2] as i8, v[1] as i8, v[0] as i8, 0, c),
        Syntax::JumpR | Syntax::MoveTo => Encoding::Register(0, v[0] as i8, 0, 0, 0, c),
        Syntax::MoveFrom => Encoding::Register(0, 0, 0, v[0] as i8, 0, c),
        Syntax::ArithLogI => Encoding::Immediate(c, v[1] as i8, v[0] as i8, v[2] as i16),
        Syntax::LoadI => Encoding::Immediate(c, 0, v[0] as i8, v[1] as i16),
        Syntax::Branch => Encoding::Immediate(c, v[0] as i8, v[1] as i8, disp(v[2], adr)),
        Syntax::BranchZ => Encoding::Immediate(c, v[0] as i8, 0, disp(v[1], adr)),
        Syntax::LoadStore => Encoding::Immediate(c, v[2] as i8, v[0] as i8, disp(v[1], adr)),
        Syntax::Jump => Encoding::Jump(c, (v[0] / 4) as i32),
        Syntax::Trap => Encoding::Jump(c, v[0] as i32),
        Syntax::Syscall => Encoding::Jump(0, c as i32),
        Syntax::S2ArithLog => Encoding::Register(28, v[1] as i8, v[2] as i8, v[0] as i8, 0, c),
        Syntax::RegImmBranch => Encoding::Immediate(1, v[0] as i8, c, disp(v[1], adr)),
        Syntax::CoProc1Move => Encoding::Register(17, c, v[0] as i8, v[1] as i8, 0, 0),
        Syntax::Break => Encoding::Register(0, 0, 0, 0, 0, c),
        Syntax::AtomicLoadStore => {
            let d = disp(v[1], adr);
            Encoding::Register(31, v[2] as i8, v[0] as i8, half_toward_zero(d as int) as i8, (2 * d) as i8, c)
        },
    }
}

/// What encoding `instr` with operands `args` at address `adr` gives, labels looked up in `b`.
///
/// A `syscall` reads no operand. Any other class fails with `MalformedOperandCount` on the
/// wrong number of operands; if an operand does not resolve, the fallback is used.
pub open spec fn encode_spec(
    instr: InstrCode,
    args: Args<ArgView>,
    b: Seq<(Seq<char>, u32)>,
    adr: u32,
) -> Result<Encoded, ErrorKind> {
    if instr.syntax == Syntax::Syscall {
        Ok(Encoded { enc: Encoding::Jump(0, instr.code as i32), resolved: true })
    } else if arg_seq(args).len() != arity(instr.syntax) {
        Err(ErrorKind::MalformedOperandCount)
    } else {
        match resolved_values(args, b) {
            Some(v) => Ok(Encoded { enc: encode_resolved(instr, v, adr), resolved: true }),
            None => Ok(Encoded { enc: fallback(instr), resolved: false }),
        }
    }
}

/// The value that `a` stands for, labels looked up in `table`.
pub fn resolve_arg(a: &Arg, table: &LabelTable) -> (r: Option<u32>)
    ensures
        r == resolve(a@, table@),
{
    match a {
        Arg::Reg(r) => Some(*r as u32),
        Arg::Imm(n) => Some(*n as u32),
        Arg::Label(l) => table.get(l.as_str()),
    }
}

/// The values of all operands of `args`, if each one resolves.
fn resolve_args(args: &Args<Arg>, table: &LabelTable) -> (r: Option<Vec<u32>>)
    ensures
        r matches Some(v) ==> resolved_values(args@, table@) == Some(v@),
        r is None ==> resolved_values(args@, table@) is None,
{
    let ghost s = arg_seq(args@);
    let r = match args {
        Args::Three(a, b, c) => match (resolve_arg(a, table), resolve_arg(b, table), resolve_arg(c, table)) {
            (Some(x), Some(y), Some(z)) => Some(vec![x, y, z]),
            _ => None,
        },
        Args::Two(a, b) => match (resolve_arg(a, table), resolve_arg(b, table)) {
            (Some(x), Some(y)) => Some(vec![x, y]),
            _ => None,
        },
        Args::One(a) => match resolve_arg(a, table) {
            Some(x) => Some(vec![x]),
            None => None,
        },
        Args::Zero => Some(Vec::new()),
    };
    proof {
        match &r {
            Some(v) => {
                assert(forall|i: int| 0 <= i < s.len() ==> resolve(#[trigger] s[i], table@) is Some);
                assert(v@ =~= Seq::new(s.len(), |i: int| resolve(s[i], table@)->0));
            },
            None => {
                assert(exists|i: int| 0 <= i < s.len() && !(resolve(#[trigger] s[i], table@) is Some));
            },
        }
    }
    r
}

/// The displacement from `adr` to `target`, in words, less one, cut to 16 bits.
fn displacement(target: u32, adr: u32) -> (r: i16)
    ensures
        r == disp(target, adr),
{
    let diff: i64 = target as i64 - adr as i64;
    let q: i64 = (diff + 0x4_0000_0000) / 4 - 0x1_0000_0000 - 1;
    proof {
        assert((diff + 0x4_0000_0000) / 4 == diff / 4 + 0x1_0000_0000) by (nonlinear_arith);
    }
    q as i16
}

/// The encoding of `instr` at `adr` whose operands have the values `v`.
fn encode_values(instr: &InstrCode, v: &Vec<u32>, adr: u32) -> (r: Encoding)
    requires
        v@.len() == arity(instr.syntax),
    ensures
        r == encode_resolved(*instr, v@, adr),
{
    let c = instr.code;
    match instr.syntax {
        Syntax::ArithLog => Encoding::Register(0, v[1] as i8, v[2] as i8, v[0] as i8, 0, c),
        Syntax::DivMult => Encoding::Register(0, v[0] as i8, v[1] as i8, 0, 0, c),
        Syntax::Shift => Encoding::Register(0, 0, v[1] as i8, v[0] as i8, v[2] as i8, c),
        Syntax::ShiftV => Encoding::Register(0, v[2] as i8, v[1] as i8, v[0] as i8, 0, c),
        Syntax::JumpR | Syntax::MoveTo => Encoding::Register(0, v[0] as i8, 0, 0, 0, c),
        Syntax::MoveFrom => Encoding::Register(0, 0, 0, v[0] as i8, 0, c),
        Syntax::ArithLogI => Encoding::Immediate(c, v[1] as i8, v[0] as i8, v[2] as i16),
        Syntax::LoadI => Encoding::Immediate(c, 0, v[0] as i8, v[1] as i16),
        Syntax::Branch => Encoding::Immediate(c, v[0] as i8, v[1] as i8, displacement(v[2], adr)),
        Syntax::BranchZ => Encoding::Immediate(c, v[0] as i8, 0, displacement(v[1], adr)),
        Syntax::LoadStore => Encoding::Immediate(c, v[2] as i8, v[0] as i8, displacement(v[1], adr)),
        Syntax::Jump => Encoding::Jump(c, (v[0] / 4) as i32),
        Syntax::Trap => Encoding::Jump(c, v[0] as i32),
        Syntax::Syscall => Encoding::Jump(0, c as i32),
        Syntax::S2ArithLog => Encoding::Register(28, v[1] as i8, v[2] as i8, v[0] as i8, 0, c),
        Syntax::RegImmBranch => Encoding::Immediate(1, v[0] as i8, c, displacement(v[1], adr)),
        Syntax::CoProc1Move => Encoding::Register(17, c, v[0] as i8, v[1] as i8, 0, 0),
        Syntax::Break => Encoding::Register(0, 0, 0, 0, 0, c),
        Syntax::AtomicLoadStore => {
            let d = displacement(v[1], adr) as i32;
            let h: i32 = if d >= 0 {
                d / 2
            } else {
                -((-d) / 2)
            };
            Encoding::Register(31, v[2] as i8, v[0] as i8, h as i8, (d * 2) as i8, c)
        },
    }
}

/// The fallback encoding of `instr`.
fn fallback_of(instr: &InstrCode) -> (r: Encoding)
    ensures
        r == fallback(*instr),
{
    let c = instr.code;
    match instr.syntax {
        Syntax::ArithLogI | Syntax::LoadI | Syntax::Branch | Syntax::BranchZ | Syntax::LoadStore
        | Syntax::RegImmBranch => Encoding::Immediate(c, 0, 0, 0),
        Syntax::Jump | Syntax::Trap => Encoding::Jump(c, 0),
        Syntax::Syscall => Encoding::Jump(0, c as i32),
        Syntax::S2ArithLog => Encoding::Register(28, 0, 0, 0, 0, c),
        Syntax::CoProc1Move => Encoding::Register(17, c, 0, 0, 0, 0),
        Syntax::AtomicLoadStore => Encoding::Register(31, 0, 0, 0, 0, c),
        _ => Encoding::Register(0, 0, 0, 0, 0, c),
    }
}

/// The number of operands that `s` takes.
fn arity_of(s: Syntax) -> (r: usize)
    ensures
        r == arity(s),
{
    match s {
        Syntax::ArithLog | Syntax::Shift | Syntax::ShiftV | Syntax::ArithLogI | Syntax::Branch
        | Syntax::LoadStore | Syntax::S2ArithLog | Syntax::AtomicLoadStore => 3,
        Syntax::DivMult | Syntax::LoadI | Syntax::BranchZ | Syntax::RegImmBranch
        | Syntax::CoProc1Move => 2,
        Syntax::JumpR | Syntax::MoveTo | Syntax::MoveFrom | Syntax::Jump | Syntax::Trap => 1,
        Syntax::Syscall | Syntax::Break => 0,
    }
}

/// The number of operands in `args`.
fn count_args(args: &Args<Arg>) -> (r: usize)
    ensures
        r == arg_seq(args@).len(),
{
    match args {
        Args::Three(..) => 3,
        Args::Two(..) => 2,
        Args::One(..) => 1,
        Args::Zero => 0,
    }
}

/// Encodes `instr` with operands `args` at address `adr`, labels looked up in `lbl_adr`.
pub fn get_enc(instr: &InstrCode, args: &Args<Arg>, lbl_adr: &LabelTable, adr: u32) -> (r: Result<
    Encoded,
    ErrorKind,
>)
    ensures
        r == encode_spec(*instr, args@, lbl_adr@, adr),
{
    if instr.syntax == Syntax::Syscall {
        return Ok(Encoded { enc: Encoding::Jump(0, instr.code as i32), resolved: true });
    }
    if count_args(args) != arity_of(instr.syntax) {
        return Err(ErrorKind::MalformedOperandCount);
    }
    match resolve_args(args, lbl_adr) {
        Some(v) => Ok(Encoded { enc: encode_values(instr, &v, adr), resolved: true }),
        None => Ok(Encoded { enc: fallback_of(instr), resolved: false }),
    }
}

/// A three-register arithmetic or logic instruction whose operands are registers encodes
/// to a word whose fields fit, so packing and unpacking it gives the encoding back.
pub proof fn lemma_arith_round_trip(
    instr: InstrCode,
    d: int,
    s: int,
    t: int,
    b: Seq<(Seq<char>, u32)>,
    adr: u32,
)
    requires
        instr.syntax == Syntax::ArithLog,
        0 <= instr.code < 64,
        0 <= d < 32,
        0 <= s < 32,
        0 <= t < 32,
    ensures
        ({
            let e = Encoding::Register(0, s as i8, t as i8, d as i8, 0, instr.code);
            &&& encode_spec(
                instr,
                Args::Three(ArgView::Reg(d), ArgView::Reg(s), ArgView::Reg(t)),
                b,
                adr,
            ) == Ok::<Encoded, ErrorKind>(Encoded { enc: e, resolved: true })
            &&& unpack(pack(e), layout_of(e)) == e
        }),
{
    let args = Args::Three(ArgView::Reg(d), ArgView::Reg(s), ArgView::Reg(t));
    let sq = arg_seq(args);
    assert(resolve(sq[0], b) is Some && resolve(sq[1], b) is Some && resolve(sq[2], b) is Some);
    let e = Encoding::Register(0, s as i8, t as i8, d as i8, 0, instr.code);
    assert(fits(e));
    lemma_pack_round_trip(e);
}

/// A two-register branch to a bound label stores `(label − address) / 4 − 1`, cut to
/// 16 bits, and the Immediate layout hands that 16-bit value back unchanged.
pub proof fn lemma_branch_displacement(
    instr: InstrCode,
    s: int,
    t: int,
    label: Seq<char>,
    b: Seq<(Seq<char>, u32)>,
    adr: u32,
)
    requires
        instr.syntax == Syntax::Branch,
        0 <= instr.code < 64,
        0 <= s < 32,
        0 <= t < 32,
        lookup_in(b, label) is Some,
    ensures
        ({
            let target = lookup_in(b, label)->0;
            let d = ((target - adr) / 4 - 1) as i16;
            let e = Encoding::Immediate(instr.code, s as i8, t as i8, d);
            &&& encode_spec(
                instr,
                Args::Three(ArgView::Reg(s), ArgView::Reg(t), ArgView::Label(label)),
                b,
                adr,
            ) == Ok::<Encoded, ErrorKind>(Encoded { enc: e, resolved: true })
            &&& unpack(pack(e), Layout::Immediate) == e
            &&& -0x8000 <= (target - adr) / 4 - 1 < 0x8000 ==> d as int == (target - adr) / 4 - 1
        }),
{
    let args = Args::Three(ArgView::Reg(s), ArgView::Reg(t), ArgView::Label(label));
    let target = lookup_in(b, label)->0;
    let sq = arg_seq(args);
    assert(resolve(sq[0], b) is Some && resolve(sq[1], b) is Some && resolve(sq[2], b) is Some);
    let v = resolved_values(args, b)->0;
    assert(v[0] == s as u32 && v[1] == t as u32 && v[2] == target);
    assert((s as u32) as i8 == s as i8);
    let e = Encoding::Immediate(instr.code, s as i8, t as i8, ((target - adr) / 4 - 1) as i16);
    assert(fits(e));
    lemma_pack_round_trip(e);
}

/// A single-register branch to a bound label stores the same displacement.
pub proof fn lemma_branch_zero_displacement(
    instr: InstrCode,
    s: int,
    label: Seq<char>,
    b: Seq<(Seq<char>, u32)>,
    adr: u32,
)
    requires
        instr.syntax == Syntax::BranchZ,
        0 <= instr.code < 64,
        0 <= s < 32,
        lookup_in(b, label) is Some,
    ensures
        ({
            let target = lookup_in(b, label)->0;
            let e = Encoding::Immediate(instr.code, s as i8, 0, ((target - adr) / 4 - 1) as i16);
            &&& encode_spec(instr, Args::Two(ArgView::Reg(s), ArgView::Label(label)), b, adr)
                == Ok::<Encoded, ErrorKind>(Encoded { enc: e, resolved: true })
            &&& unpack(pack(e), Layout::Immediate) == e
        }),
{
    let args = Args::Two(ArgView::Reg(s), ArgView::Label(label));
    let target = lookup_in(b, label)->0;
    let sq = arg_seq(args);
    assert(resolve(sq[0], b) is Some && resolve(sq[1], b) is Some);
    let e = Encoding::Immediate(instr.code, s as i8, 0, ((target - adr) / 4 - 1) as i16);
    assert(fits(e));
    lemma_pack_round_trip(e);
}

/// An absolute jump to a bound label stores the label's address shifted right by two.
pub proof fn lemma_jump_field(instr: InstrCode, label: Seq<char>, b: Seq<(Seq<char>, u32)>, adr: u32)
    requires
        instr.syntax == Syntax::Jump,
        lookup_in(b, label) is Some,
    ensures
        ({
            let target = lookup_in(b, label)->0;
            &&& encode_spec(instr, Args::One(ArgView::Label(label)), b, adr)
                == Ok::<Encoded, ErrorKind>(
                Encoded { enc: Encoding::Jump(instr.code, (target >> 2u32) as i32), resolved: true },
            )
            &&& (target >> 2u32) as int == (target >> 2u32) as i32
        }),
{
    let args = Args::One(ArgView::Label(label));
    let target = lookup_in(b, label)->0;
    assert(resolve(arg_seq(args)[0], b) is Some);
    assert(target >> 2u32 == target / 4 && target >> 2u32 < 0x4000_0000) by (bit_vector);
}

} // verus!

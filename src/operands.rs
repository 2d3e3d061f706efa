//! The operand tokenizer: registers, immediates and labels.

use vstd::prelude::*;
use vstd::slice::slice_subrange;

use crate::diag::ErrorKind;
use crate::number::{num_value, parse_num};
use crate::tables::{as_register, reg_index};
use crate::text::{
    chars_of, find, find_from, rem_spaces, rfind, rfind_before, trim, trim_bounds, trim_range,
};

verus! {

/// One operand.
#[derive(Clone, Debug)]
pub enum Arg {
    Reg(i8),
    Imm(i32),
    Label(String),
}

/// An operand as a mathematical value.
pub enum ArgView {
    Reg(int),
    Imm(int),
    Label(Seq<char>),
}

impl View for Arg {
    type V = ArgView;

    open spec fn view(&self) -> ArgView {
        match self {
            Arg::Reg(r) => ArgView::Reg(*r as int),
            Arg::Imm(n) => ArgView::Imm(*n as int),
            Arg::Label(l) => ArgView::Label(l@),
        }
    }
}

/// The operands of one instruction: none, one, two or three.
#[derive(Clone, Debug)]
pub enum Args<T> {
    Three(T, T, T),
    Two(T, T),
    One(T),
    Zero,
}

impl<T: View> View for Args<T> {
    type V = Args<T::V>;

    open spec fn view(&self) -> Args<T::V> {
        match self {
            Args::Three(a, b, c) => Args::Three(a@, b@, c@),
            Args::Two(a, b) => Args::Two(a@, b@),
            Args::One(a) => Args::One(a@),
            Args::Zero => Args::Zero,
        }
    }
}

/// What the trimmed token `t` is: a register, else a number, else a label.
pub open spec fn token(t: Seq<char>) -> ArgView {
    match reg_index(t) {
        Some(i) => ArgView::Reg(i),
        None => match num_value(t) {
            Some(n) => ArgView::Imm(n),
            None => ArgView::Label(t),
        },
    }
}

/// The operand written by `s[from..to]`, blanks around it ignored.
pub open spec fn token_in(s: Seq<char>, from: int, to: int) -> ArgView {
    token(trim(s.subrange(from, to)))
}

/// How an operand text splits into operands.
///
/// Without `(`, the commas part up to three operands; the third takes the rest.
/// With `(`, the text has the indexed form `[target,] offset(base)`: the last comma
/// before `(` ends the target, and the first `)` after it ends the base.
pub open spec fn split_operands(s: Seq<char>) -> Result<Args<ArgView>, ErrorKind> {
    let t = trim(s);
    let n = t.len() as int;
    let p = find(t, '(', 0);
    if n == 0 {
        Ok(Args::Zero)
    } else if p == n {
        let c1 = find(t, ',', 0);
        let c2 = find(t, ',', c1 + 1);
        if c1 == n {
            Ok(Args::One(token_in(t, 0, n)))
        } else if c2 == n {
            Ok(Args::Two(token_in(t, 0, c1), token_in(t, c1 + 1, n)))
        } else {
            Ok(Args::Three(token_in(t, 0, c1), token_in(t, c1 + 1, c2), token_in(t, c2 + 1, n)))
        }
    } else {
        let q = find(t, ')', p + 1);
        if q == n {
            Err(ErrorKind::MalformedOperand)
        } else {
            match rfind(t, ',', p) {
                None => Ok(Args::Two(token_in(t, 0, p), token_in(t, p + 1, q))),
                Some(c) => Ok(
                    Args::Three(token_in(t, 0, c), token_in(t, c + 1, p), token_in(t, p + 1, q)),
                ),
            }
        }
    }
}

/// The operand that the trimmed token `t` writes.
fn classify(t: String) -> (r: Arg)
    ensures
        r@ == token(t@),
{
    match as_register(t.as_str()) {
        Ok(i) => Arg::Reg(i),
        Err(_) => match parse_num(t.as_str()) {
            Ok(n) => Arg::Imm(n),
            Err(_) => Arg::Label(t),
        },
    }
}

/// The operand written by `c[from..to]`.
fn token_at(c: &[char], from: usize, to: usize) -> (r: Arg)
    requires
        from <= to <= c@.len(),
    ensures
        r@ == token_in(c@, from as int, to as int),
{
    classify(trim_range(c, from, to))
}

/// The operand written by `arg`, blanks around it ignored.
pub fn get_argument(arg: &str) -> (r: Arg)
    ensures
        r@ == token(trim(arg@)),
{
    classify(rem_spaces(arg))
}

/// Splits the operand text `c` into its operands.
pub(crate) fn split_chars(c: &[char]) -> (r: Result<Args<Arg>, ErrorKind>)
    ensures
        r matches Ok(a) ==> split_operands(c@) == Ok::<Args<ArgView>, ErrorKind>(a@),
        r matches Err(e) ==> split_operands(c@) == Err::<Args<ArgView>, ErrorKind>(e),
{
    let (b, e) = trim_bounds(c, 0, c.len());
    proof {
        assert(c@.subrange(0, c@.len() as int) =~= c@);
    }
    let t = slice_subrange(c, b, e);
    let n = t.len();
    if n == 0 {
        return Ok(Args::Zero);
    }
    let p = find_from(t, '(', 0);
    if p == n {
        let c1 = find_from(t, ',', 0);
        if c1 == n {
            return Ok(Args::One(token_at(t, 0, n)));
        }
        let c2 = find_from(t, ',', c1 + 1);
        if c2 == n {
            Ok(Args::Two(token_at(t, 0, c1), token_at(t, c1 + 1, n)))
        } else {
            Ok(Args::Three(token_at(t, 0, c1), token_at(t, c1 + 1, c2), token_at(t, c2 + 1, n)))
        }
    } else {
        let q = find_from(t, ')', p + 1);
        if q == n {
            return Err(ErrorKind::MalformedOperand);
        }
        match rfind_before(t, ',', p) {
            None => Ok(Args::Two(token_at(t, 0, p), token_at(t, p + 1, q))),
            Some(k) => Ok(Args::Three(token_at(t, 0, k), token_at(t, k + 1, p), token_at(t, p + 1, q))),
        }
    }
}

/// Splits the operand text of an instruction into its operands.
pub fn get_arguments(arg_line: &str) -> (r: Result<Args<Arg>, ErrorKind>)
    ensures
        r matches Ok(a) ==> split_operands(arg_line@) == Ok::<Args<ArgView>, ErrorKind>(a@),
        r matches Err(e) ==> split_operands(arg_line@) == Err::<Args<ArgView>, ErrorKind>(e),
{
    let c = chars_of(arg_line);
    split_chars(c.as_slice())
}

} // verus!

//! Diagnostics reported while assembling.

use vstd::prelude::*;

verus! {

/// What went wrong on a source line.
#[derive(Clone, Copy, Debug, PartialEq, Eq, Structural)]
pub enum ErrorKind {
    /// The mnemonic is not in the catalog.
    UnknownInstruction,
    /// A label name holds whitespace.
    InvalidLabelName,
    /// A label is defined a second time in its section; the first binding stays.
    DuplicateLabel,
    /// An indented line follows no label.
    DanglingIndent,
    /// A string directive misses a quote.
    MalformedDirective,
    /// A numeric literal could not be read.
    NumberFormat,
    /// The operand text does not have the shape the instruction needs.
    MalformedOperand,
    /// A label operand is bound in no section.
    UnresolvedLabel,
    /// The instruction has the wrong number of operands for its syntax class.
    MalformedOperandCount,
    /// An address passes the end of the 32-bit address space.
    AddressOverflow,
}

/// A diagnostic: its kind and the number of the source line, counted from 1.
#[derive(Clone, Copy, Debug, PartialEq, Eq, Structural)]
pub struct Diagnostic {
    pub kind: ErrorKind,
    pub line: u32,
}

} // verus!

//! A two-pass assembler for a MIPS-like instruction subset.
//!
//! Source text goes through the symbol builder (`pass1`), which emits records and label
//! addresses, and the encoder (`pass2`), which turns each record into bytes of a flat
//! image. Each stage is stated over mathematical models and proved against them.

pub mod diag;
pub mod encode;
pub mod number;
pub mod operands;
pub mod pack;
pub mod pass1;
pub mod pass2;
pub mod symbols;
pub mod tables;
pub mod text;

pub use diag::{Diagnostic, ErrorKind};
pub use encode::{get_enc, Encoded};
pub use number::parse_num;
pub use operands::{get_argument, get_arguments, Arg, Args};
pub use pack::{get_bin, Encoding};
pub use pass1::{pass1, Line, Pass1Output, Section};
pub use pass2::{assemble, pass2, Assembly};
pub use symbols::LabelTable;
pub use tables::{as_register, get_code, InstrCode, Syntax};
pub use text::rem_spaces;

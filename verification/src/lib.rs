//! A teaching toolchain for two small instruction set architectures: a
//! byte-wide machine with an ARM-style status register, and a 32-bit
//! word machine with rotate-encoded immediates.
//!
//! The crate has three layers:
//! - shared front-end infrastructure: source points and ranges, tokens,
//!   a lexer, and an assembly parser producing sections of nodes;
//! - the byte machine: a fetch-decode-execute core over 256 bytes of
//!   memory and seven registers, with an ALU that maintains the
//!   N/Z/C/V status flags, a downward-growing stack, predicated
//!   branches, and subroutine and interrupt control flow;
//! - the word machine: an emitter from parsed nodes to packed 32-bit
//!   instruction words, a decoder back out of them, a single-step
//!   executor, and a direct interpreter over the syntax tree.

pub mod alu;
pub mod assemble;
pub mod cpu;
pub mod eval;
pub mod machine;
pub mod memory;
pub mod node;
pub mod opcodes;
pub mod parse;
pub mod section;
pub mod stack;
pub mod storage;
pub mod stream;
pub mod token;
pub mod vm;

pub use crate::machine::{ChangeEvent, Machine, Observer, Response, COUNTER, SP, STATUS};
pub use crate::node::{Node, Type as NodeType};
pub use crate::stream::{Error, Input};
pub use crate::token::{Point, Range, Token, Type};
pub use crate::vm::execute;

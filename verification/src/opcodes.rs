//! Bitfield layout and opcode constants of the byte instruction word.
//!
//! A byte instruction packs three fields: the top nibble selects the
//! operation class, bits 3..2 hold the first operand register, and
//! bits 1..0 the second. Extended classes reuse bits 3..0 as a
//! sub-opcode. These constants and the field extractors below are the
//! single shared description of that layout; the ALU, the machine
//! core, and the tests all go through them.

use vstd::prelude::*;

verus! {

/// Mask of the operation-class nibble.
pub const OPERATION: u8 = 0b1111_0000;

// ALU instruction classes, two operands.
pub const OP_MOVE: u8 = 0b0000_0000;
pub const OP_ADD: u8 = 0b0001_0000;
pub const OP_ADDC: u8 = 0b0010_0000;
pub const OP_SUB: u8 = 0b0011_0000;
pub const OP_AND: u8 = 0b0100_0000;
pub const OP_OR: u8 = 0b0101_0000;
pub const OP_XOR: u8 = 0b0110_0000;
pub const OP_CMP: u8 = 0b0111_0000;

// ALU instruction classes, one operand.
pub const OP_NOT_NEG_INC_DEC: u8 = 0b1000_0000;
pub const OP_SHIFT: u8 = 0b1001_0000;

// Memory access.
pub const OP_STORE: u8 = 0b1010_0000;
pub const OP_LOAD: u8 = 0b1011_0000;
pub const OP_STACK: u8 = 0b1100_0000;
pub const LDI_INTERRUPT: u8 = 0b1101_0000;

// Control flow.
pub const OP_BRANCH: u8 = 0b1110_0000;

// Load through a register used as an address.
pub const OP_LOAD_C: u8 = 0b1111_0000;

// Sub-opcodes of `OP_NOT_NEG_INC_DEC` (bits 3..2).
pub const NOT: u8 = 0b0000_0000;
pub const NEG: u8 = 0b0000_0100;
pub const DEC: u8 = 0b0000_1000;
pub const INC: u8 = 0b0000_1100;

// Sub-opcodes of `LDI_INTERRUPT` (bits 3..0).
pub const OP_LDI_0: u8 = 0b0000_0000;
pub const OP_LDI_1: u8 = 0b0000_0001;
pub const OP_LDI_2: u8 = 0b0000_0010;
pub const OP_LDI_3: u8 = 0b0000_0011;
pub const OP_HALT: u8 = 0b0000_0100;
pub const OP_WAIT: u8 = 0b0000_0101;
pub const OP_JSR: u8 = 0b0000_0110;
pub const OP_RTS: u8 = 0b0000_0111;
pub const OP_IOI: u8 = 0b0000_1000;
pub const OP_RTI: u8 = 0b0000_1001;
pub const OP_CRC: u8 = 0b0000_1010;
pub const OP_OSIX: u8 = 0b0000_1011;
pub const OP_RAND: u8 = 0b0000_1111;

// Sub-opcodes of `OP_SHIFT` (bits 3..2).
pub const SHR: u8 = 0b0000_0000;
pub const SHLA: u8 = 0b0000_0100;
pub const SHRA: u8 = 0b0000_1000;
pub const ROL: u8 = 0b0000_1100;

// Sub-opcodes of `OP_STACK` (bits 3..2).
pub const PUSH: u8 = 0b0000_0000;
pub const POP: u8 = 0b0000_0100;
pub const LDSA: u8 = 0b0000_1000;
pub const ADDSP_SETSP_PUSHALL_POPALL: u8 = 0b0000_1100;

// Sub-sub-opcodes of `ADDSP_SETSP_PUSHALL_POPALL` (bits 1..0).
pub const ADDSP: u8 = 0b0000_0000;
pub const SETSP: u8 = 0b0000_0001;
pub const PUSHALL: u8 = 0b0000_0010;
pub const POPALL: u8 = 0b0000_0011;

// Sub-opcodes of `OP_BRANCH` (bits 3..0): the condition code.
pub const BEQ_BZ: u8 = 0b0000_0000;
pub const BNE_BNZ: u8 = 0b0000_0001;
pub const BHS_BCS: u8 = 0b0000_0010;
pub const BLO_BCC: u8 = 0b0000_0011;
pub const BMI: u8 = 0b0000_0100;
pub const BPL: u8 = 0b0000_0101;
pub const BVS: u8 = 0b0000_0110;
pub const BVC: u8 = 0b0000_0111;
pub const BHI: u8 = 0b0000_1000;
pub const BLS: u8 = 0b0000_1001;
pub const BGE: u8 = 0b0000_1010;
pub const BLT: u8 = 0b0000_1011;
pub const BGT: u8 = 0b0000_1100;
pub const BLE: u8 = 0b0000_1101;
pub const BR: u8 = 0b0000_1110;
pub const NOP: u8 = 0b0000_1111;

/// The operation-class field of an instruction: its top nibble, kept
/// in place so it compares directly against the `OP_*` constants.
pub open spec fn spec_operation(ins: u8) -> u8 {
    ins & OPERATION
}

/// The first operand register: bits 3..2.
pub open spec fn spec_op1(ins: u8) -> u8 {
    (ins & 0b0000_1100) >> 2
}

/// The second operand register: bits 1..0.
pub open spec fn spec_op2(ins: u8) -> u8 {
    ins & 0b0000_0011
}

/// The sub-opcode of the extended classes: bits 3..0.
pub open spec fn spec_subop(ins: u8) -> u8 {
    ins & 0b0000_1111
}

/// Extract the operation-class nibble.
#[verifier::when_used_as_spec(spec_operation)]
pub fn operation(ins: u8) -> (r: u8)
    ensures
        r == spec_operation(ins),
{
    ins & OPERATION
}

/// Extract the first operand register (bits 3..2).
#[verifier::when_used_as_spec(spec_op1)]
pub fn op1(ins: u8) -> (r: u8)
    ensures
        r == spec_op1(ins),
{
    (ins & 0b0000_1100) >> 2
}

/// Extract the second operand register (bits 1..0).
#[verifier::when_used_as_spec(spec_op2)]
pub fn op2(ins: u8) -> (r: u8)
    ensures
        r == spec_op2(ins),
{
    ins & 0b0000_0011
}

/// Extract the sub-opcode of the extended classes (bits 3..0).
#[verifier::when_used_as_spec(spec_subop)]
pub fn subop(ins: u8) -> (r: u8)
    ensures
        r == spec_subop(ins),
{
    ins & 0b0000_1111
}

/// The operand fields always name one of the four general-purpose
/// registers.
pub proof fn lemma_field_bounds(ins: u8)
    by (bit_vector)
    ensures
        spec_op1(ins) < 4,
        spec_op2(ins) < 4,
        spec_subop(ins) < 16,
        spec_operation(ins) & 0b0000_1111 == 0,
{
}

/// Each field extractor reads exactly the bits the masks assign to it:
/// on a word assembled from an operation class and two register
/// numbers, the extractors return those components unchanged.
pub proof fn lemma_fields_of_assembled(class: u8, a: u8, b: u8)
    by (bit_vector)
    requires
        class & 0b0000_1111 == 0,
        a < 4,
        b < 4,
    ensures
        spec_operation(class | (a << 2) | b) == class,
        spec_op1(class | (a << 2) | b) == a,
        spec_op2(class | (a << 2) | b) == b,
{
}

/// Concatenating the extracted fields reproduces the instruction word:
/// the three fields partition the byte.
pub proof fn lemma_fields_recompose(ins: u8)
    by (bit_vector)
    ensures
        spec_operation(ins) | (spec_op1(ins) << 2) | spec_op2(ins) == ins,
        spec_operation(ins) | spec_subop(ins) == ins,
{
}

} // verus!

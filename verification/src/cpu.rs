//! Bitfield layout, opcode constants, and syntax tree of the 32-bit
//! word machine.
//!
//! A word instruction packs: bits 31..28 the condition code, bit 25
//! the indirect flag, bit 24 the immediate flag, bits 23..20 the
//! operation, bits 19..16 the source register, bits 15..12 the
//! destination register, bits 11..8 the rotation amount of an
//! immediate, and bits 7..0 its data byte. Bits 15..0 double as a
//! full 16-bit offset for loads, stores and branches. Immediates are
//! rotate-encoded: a value is representable exactly when some
//! rotation left by an even amount brings it under 256.

use vstd::prelude::*;

verus! {

/// Mask of the condition code, bits 31..28.
pub const COND: u32 = 0xF000_0000;

/// The indirect flag, bit 25.
pub const INDIRECT: u32 = 0x0200_0000;

/// The immediate flag, bit 24.
pub const IMMEDIATE: u32 = 0x0100_0000;

/// Mask of the operation, bits 23..20.
pub const OPERATION: u32 = 0x00F0_0000;

/// Mask of the source register, bits 19..16.
pub const SOURCE: u32 = 0x000F_0000;

/// Mask of the destination register, bits 15..12.
pub const DEST: u32 = 0x0000_F000;

/// Mask of the rotation amount, bits 11..8.
pub const SHIFT: u32 = 0x0000_0F00;

/// Mask of the immediate data byte, bits 7..0.
pub const DATA: u32 = 0x0000_00FF;

/// Mask of the 16-bit offset, bits 15..0.
pub const OFFSET: u32 = 0x0000_FFFF;

// Condition codes.
pub const COND_NONE: u32 = 0x0000_0000;
pub const COND_EQ: u32 = 0x1000_0000;
pub const COND_NE: u32 = 0x2000_0000;
pub const COND_GT: u32 = 0x4000_0000;
pub const COND_LT: u32 = 0x8000_0000;

// Operations.
pub const LDR: u32 = 0x0010_0000;
pub const STR: u32 = 0x0020_0000;
pub const ADD: u32 = 0x0040_0000;
pub const SUB: u32 = 0x0050_0000;
pub const MOV: u32 = 0x0060_0000;
pub const CMP: u32 = 0x0070_0000;
pub const B: u32 = 0x0080_0000;
pub const AND: u32 = 0x0090_0000;
pub const ORR: u32 = 0x00A0_0000;
pub const EOR: u32 = 0x00B0_0000;
pub const MVN: u32 = 0x00C0_0000;
pub const LSR: u32 = 0x00D0_0000;
pub const LSL: u32 = 0x00E0_0000;
pub const HALT: u32 = 0x00F0_0000;

// Special register indices of the word machine's register file.
pub const CIR: u32 = 13;
pub const MBUFF: u32 = 14;
pub const COUNTER: u32 = 15;
pub const ADDRESS: u32 = 16;
pub const STATUS: u32 = 17;

/// The condition-code field, kept in place.
pub open spec fn spec_cond(w: u32) -> u32 {
    w & COND
}

/// The operation field, kept in place.
pub open spec fn spec_op(w: u32) -> u32 {
    w & OPERATION
}

/// The source register, bits 19..16 shifted down.
pub open spec fn spec_source(w: u32) -> u32 {
    (w & SOURCE) >> 16
}

/// The destination register, bits 15..12 shifted down.
pub open spec fn spec_dest(w: u32) -> u32 {
    (w & DEST) >> 12
}

/// The rotation amount, bits 11..8 shifted down.
pub open spec fn spec_shift(w: u32) -> u32 {
    (w & SHIFT) >> 8
}

/// The immediate data byte.
pub open spec fn spec_data(w: u32) -> u32 {
    w & DATA
}

/// The 16-bit offset.
pub open spec fn spec_offset(w: u32) -> u32 {
    w & OFFSET
}

/// Rotation of a word right by `k` bits.
pub open spec fn rotr32(x: u32, k: u32) -> u32 {
    if k == 0 {
        x
    } else if k < 32 {
        (x >> k) | (x << ((32 - k) as u32))
    } else {
        x
    }
}

/// Rotation of a word left by `k` bits.
pub open spec fn rotl32(x: u32, k: u32) -> u32 {
    if k == 0 {
        x
    } else if k < 32 {
        (x << k) | (x >> ((32 - k) as u32))
    } else {
        x
    }
}

/// Rotating left and then right by the same amount is the identity.
pub proof fn lemma_rot_inverse(x: u32, k: u32)
    by (bit_vector)
    requires
        k < 32,
    ensures
        rotr32(rotl32(x, k), k) == x,
        rotl32(rotr32(x, k), k) == x,
{
}

/// Rotate a word right, as the executor decodes immediates.
#[verifier::when_used_as_spec(rotr32)]
pub fn rotate_right(x: u32, k: u32) -> (r: u32)
    requires
        k < 32,
    ensures
        r == rotr32(x, k),
{
    if k == 0 {
        x
    } else {
        (x >> k) | (x << (32 - k))
    }
}

/// Rotate a word left, as the encoder probes immediates.
#[verifier::when_used_as_spec(rotl32)]
pub fn rotate_left(x: u32, k: u32) -> (r: u32)
    requires
        k < 32,
    ensures
        r == rotl32(x, k),
{
    if k == 0 {
        x
    } else {
        (x << k) | (x >> (32 - k))
    }
}

/// The smallest rotation index at or after `i` that brings `v` under
/// 256, if any: the encoder scans indices 0 to 15 and takes the first
/// whose even rotation makes the value a byte.
pub open spec fn first_rot_from(v: u32, i: nat) -> Option<nat>
    decreases 16 - i,
{
    if i >= 16 {
        None
    } else if rotl32(v, (2 * i) as u32) < 256 {
        Some(i)
    } else {
        first_rot_from(v, i + 1)
    }
}

/// A value is representable as a rotate-encoded immediate when some
/// even rotation of it fits in a byte.
pub open spec fn spec_encodable(v: u32) -> bool {
    first_rot_from(v, 0) is Some
}

/// What the scan finds is the smallest fitting rotation index.
pub proof fn lemma_first_rot_smallest(v: u32, i: nat, j: nat)
    requires
        first_rot_from(v, i) == Some(j),
        i <= 16,
    ensures
        i <= j < 16,
        rotl32(v, (2 * j) as u32) < 256,
        forall|k: nat| i <= k < j ==> #[trigger] rotl32(v, (2 * k) as u32) >= 256,
    decreases 16 - i,
{
    if i >= 16 {
    } else if rotl32(v, (2 * i) as u32) < 256 {
    } else {
        lemma_first_rot_smallest(v, i + 1, j);
    }
}

/// Every byte-sized value is representable, found at rotation index
/// zero: rotating by zero changes nothing, so the encoder's scan
/// succeeds immediately.
pub proof fn lemma_byte_encodable(v: u32)
    requires
        v < 256,
    ensures
        first_rot_from(v, 0) == Some(0nat),
        spec_encodable(v),
{
    assert(rotl32(v, 0) == v);
}

/// The rotate-encoded operand for an immediate value: the immediate
/// flag, the smallest fitting rotation index in the rotation field,
/// and the rotated byte in the data field. `None` when no rotation
/// fits.
pub open spec fn spec_encode_immediate(v: u32) -> Option<u32> {
    match first_rot_from(v, 0) {
        Option::None => Option::None,
        Option::Some(i) => Option::Some(
            IMMEDIATE | ((i as u32) << 8) | rotl32(v, (2 * i) as u32),
        ),
    }
}

/// Find the rotate encoding of an immediate value: the smallest `i`
/// with `rotate_left(v, 2 i) < 256`, yielding the encoded operand
/// word, or `None` when the value is not representable.
pub fn encode_immediate(v: u32) -> (r: Option<u32>)
    ensures
        r == spec_encode_immediate(v),
{
    let mut i: u32 = 0;
    while i < 16
        invariant
            i <= 16,
            first_rot_from(v, 0) == first_rot_from(v, i as nat),
        decreases 16 - i,
    {
        let rotated = rotate_left(v, 2 * i);
        if rotated < 256 {
            return Some(IMMEDIATE | (i << 8) | rotated);
        }
        i = i + 1;
    }
    None
}

/// Each field extractor reads exactly the bits its mask assigns to
/// it: on a word assembled from a condition code, the flag bits, an
/// operation, a source and a 16-bit offset, the extractors return
/// those components unchanged.
pub proof fn lemma_word_fields(cond: u32, ind: bool, imm: bool, op: u32, src: u32, offset: u32)
    ensures
        ({
            let w = cond | (if ind {
                INDIRECT
            } else {
                0u32
            }) | (if imm {
                IMMEDIATE
            } else {
                0u32
            }) | op | (src << 16) | offset;
            cond & 0x0FFF_FFFF == 0 && op & 0xFF0F_FFFF == 0 && src < 16 && offset <= 0xFFFF
                ==> spec_cond(w) == cond && (w & INDIRECT != 0) == ind && (w & IMMEDIATE != 0)
                == imm && spec_op(w) == op && spec_source(w) == src && spec_offset(w) == offset
                && spec_dest(w) == (offset & 0xF000) >> 12 && spec_shift(w) == (offset & 0x0F00)
                >> 8 && spec_data(w) == offset & 0xFF
        }),
{
    let iw: u32 = if ind {
        INDIRECT
    } else {
        0u32
    };
    let mw: u32 = if imm {
        IMMEDIATE
    } else {
        0u32
    };
    let w = cond | iw | mw | op | (src << 16) | offset;
    assert(cond & 0x0FFF_FFFF == 0 && op & 0xFF0F_FFFF == 0 && src < 16 && offset <= 0xFFFF && (iw
        == 0 || iw == 0x0200_0000) && (mw == 0 || mw == 0x0100_0000) ==> w & 0xF000_0000 == cond
        && (w & 0x0200_0000) == iw && (w & 0x0100_0000) == mw && w & 0x00F0_0000 == op && (w
        & 0x000F_0000) >> 16 == src && w & 0xFFFF == offset && (w & 0xF000) >> 12 == (offset
        & 0xF000) >> 12 && (w & 0x0F00) >> 8 == (offset & 0x0F00) >> 8 && w & 0xFF == offset
        & 0xFF) by (bit_vector)
        requires
            w == cond | iw | mw | op | (src << 16) | offset,
    ;
}

/// Concatenating the extracted fields reproduces any word whose two
/// unassigned bits (27 and 26) are clear: the masks partition the
/// rest of the word.
pub proof fn lemma_word_recompose(w: u32)
    by (bit_vector)
    requires
        w & 0x0C00_0000 == 0,
    ensures
        spec_cond(w) | (w & INDIRECT) | (w & IMMEDIATE) | spec_op(w) | (spec_source(w) << 16) | (
        spec_offset(w)) == w,
{
}

/// The register fields are four bits, the rotation field four, the
/// data byte eight, and the offset sixteen.
pub proof fn lemma_word_field_bounds(w: u32)
    by (bit_vector)
    ensures
        spec_source(w) < 16,
        spec_dest(w) < 16,
        spec_shift(w) < 16,
        spec_data(w) < 256,
        spec_offset(w) <= 0xFFFF,
{
}

/// A register operand of a three-address instruction, or a literal
/// value to be rotate-encoded.
#[derive(Clone, PartialEq, Eq, Structural, Debug)]
pub enum Operand {
    Register(u32),
    Literal(u32),
}

/// The outcome a comparison records, and the condition a branch
/// requires. `Unset` means no comparison has happened, and on a
/// branch it means the branch is unconditional.
#[derive(Clone, Copy, PartialEq, Eq, Structural, Debug)]
pub enum Comparison {
    Unset,
    Equal,
    NotEqual,
    Less,
    Greater,
}

/// One statement of the word machine's assembly language.
#[derive(Clone, PartialEq, Debug)]
pub enum WordNode {
    /// Load the register from the memory offset.
    Ldr(u32, u32),
    /// Store the register at the memory offset.
    Str(u32, u32),
    /// Destination, source, operand.
    Add(u32, u32, Operand),
    Sub(u32, u32, Operand),
    /// Destination, operand.
    Mov(u32, Operand),
    /// Source, operand: compare and record the outcome.
    Cmp(u32, Operand),
    /// Branch to a label when the comparison holds.
    B(Comparison, String),
    And(u32, u32, Operand),
    Orr(u32, u32, Operand),
    Eor(u32, u32, Operand),
    /// Destination, operand: move the bitwise complement.
    Mvn(u32, Operand),
    Lsl(u32, u32, Operand),
    Lsr(u32, u32, Operand),
    Halt,
}

} // verus!

//! The word machine's emitter: from parsed nodes to packed
//! instruction words, resolving labels, and the decoder back out of
//! the words.

use vstd::prelude::*;

use crate::cpu::{
    first_rot_from, rotr32, spec_cond, spec_data, spec_dest, spec_encode_immediate,
    spec_offset, spec_op, spec_shift, spec_source, Comparison, Operand, WordNode, ADD, AND, B,
    CMP, COND, COND_EQ, COND_GT, COND_LT, COND_NE, COND_NONE, DATA, DEST, EOR, HALT, IMMEDIATE,
    INDIRECT, LDR, LSL, LSR, MOV, MVN, OFFSET, ORR, SOURCE, STR, SUB,
};
use crate::storage::Storage;
use crate::stream::Error;

verus! {

/// The position a label resolves to: the first binding of that name.
pub open spec fn spec_lookup(lbls: Seq<(String, usize)>, name: Seq<char>) -> Option<usize>
    decreases lbls.len(),
{
    if lbls.len() == 0 {
        None
    } else if lbls[0].0@ == name {
        Some(lbls[0].1)
    } else {
        spec_lookup(lbls.skip(1), name)
    }
}

/// Resolve a label in the label table.
pub fn lookup(lbls: &Vec<(String, usize)>, name: &String) -> (r: Option<usize>)
    ensures
        r == spec_lookup(lbls@, name@),
{
    let n = lbls.len();
    let mut i: usize = 0;
    proof {
        assert(lbls@.skip(0) =~= lbls@);
    }
    while i < n
        invariant
            i <= n,
            n == lbls@.len(),
            spec_lookup(lbls@, name@) == spec_lookup(lbls@.skip(i as int), name@),
        decreases n - i,
    {
        proof {
            assert(lbls@.skip(i as int)[0] == lbls@[i as int]);
            assert(lbls@.skip(i as int).skip(1) =~= lbls@.skip(i as int + 1));
        }
        if lbls[i].0.eq(name) {
            return Some(lbls[i].1);
        }
        i = i + 1;
    }
    proof {
        assert(lbls@.skip(n as int).len() == 0);
    }
    None
}

/// The condition-code bits a comparison assembles to.
pub open spec fn spec_comparison_cond(c: Comparison) -> u32 {
    match c {
        Comparison::Unset => COND_NONE,
        Comparison::Equal => COND_EQ,
        Comparison::NotEqual => COND_NE,
        Comparison::Less => COND_LT,
        Comparison::Greater => COND_GT,
    }
}

/// The operand field a parsed operand assembles to: a register number
/// stands as it is, a literal is rotate-encoded. The error text is
/// `Bad number` exactly when no rotation of the literal fits in a
/// byte.
pub open spec fn spec_encode_operand(op: Operand) -> Result<u32, Seq<char>> {
    match op {
        Operand::Register(n) => Ok(n),
        Operand::Literal(v) => match spec_encode_immediate(v) {
            Option::Some(w) => Ok(w),
            Option::None => Err("Bad number"@),
        },
    }
}

/// The instruction word a node assembles to, or the message of the
/// encode error: `Bad number` for an unrepresentable immediate,
/// `Unknown label ` plus the name for an unresolved label, and
/// `Label out of range ` plus the name for a label position beyond
/// the 16-bit offset field.
pub open spec fn spec_encode_node(n: WordNode, lbls: Seq<(String, usize)>) -> Result<
    u32,
    Seq<char>,
> {
    match n {
        WordNode::Ldr(src, mem) => Ok(LDR | (src << 16) | mem),
        WordNode::Str(src, mem) => Ok(STR | (src << 16) | mem),
        WordNode::Add(dest, src, op) => match spec_encode_operand(op) {
            Ok(o) => Ok(ADD | (src << 16) | (dest << 12) | o),
            Err(m) => Err(m),
        },
        WordNode::Sub(dest, src, op) => match spec_encode_operand(op) {
            Ok(o) => Ok(SUB | (src << 16) | (dest << 12) | o),
            Err(m) => Err(m),
        },
        WordNode::Mov(dest, op) => match spec_encode_operand(op) {
            Ok(o) => Ok(MOV | (dest << 12) | o),
            Err(m) => Err(m),
        },
        WordNode::Cmp(src, op) => match spec_encode_operand(op) {
            Ok(o) => Ok(CMP | (src << 16) | o),
            Err(m) => Err(m),
        },
        WordNode::B(cmp, label) => match spec_lookup(lbls, label@) {
            Option::None => Err("Unknown label "@ + label@),
            Option::Some(pos) => if pos <= 0xFFFF {
                Ok(spec_comparison_cond(cmp) | B | (pos as u32))
            } else {
                Err("Label out of range "@ + label@)
            },
        },
        WordNode::And(dest, src, op) => match spec_encode_operand(op) {
            Ok(o) => Ok(AND | (src << 16) | (dest << 12) | o),
            Err(m) => Err(m),
        },
        WordNode::Orr(dest, src, op) => match spec_encode_operand(op) {
            Ok(o) => Ok(ORR | (src << 16) | (dest << 12) | o),
            Err(m) => Err(m),
        },
        WordNode::Eor(dest, src, op) => match spec_encode_operand(op) {
            Ok(o) => Ok(EOR | (src << 16) | (dest << 12) | o),
            Err(m) => Err(m),
        },
        WordNode::Mvn(dest, op) => match spec_encode_operand(op) {
            Ok(o) => Ok(MVN | (dest << 12) | o),
            Err(m) => Err(m),
        },
        WordNode::Lsl(dest, src, op) => match spec_encode_operand(op) {
            Ok(o) => Ok(LSL | (src << 16) | (dest << 12) | o),
            Err(m) => Err(m),
        },
        WordNode::Lsr(dest, src, op) => match spec_encode_operand(op) {
            Ok(o) => Ok(LSR | (src << 16) | (dest << 12) | o),
            Err(m) => Err(m),
        },
        WordNode::Halt => Ok(HALT),
    }
}

/// Assemble one node into its instruction word.
pub fn encode_node(n: &WordNode, lbls: &Vec<(String, usize)>) -> (r: Result<u32, Error>)
    ensures
        match spec_encode_node(*n, lbls@) {
            Ok(w) => r matches Ok(v) && v == w,
            Err(m) => r matches Err(e) && e.message@ == m,
        },
{
    match n {
        WordNode::Ldr(src, mem) => Ok(LDR | (*src << 16) | *mem),
        WordNode::Str(src, mem) => Ok(STR | (*src << 16) | *mem),
        WordNode::Add(dest, src, op) => Ok(
            ADD | (*src << 16) | (*dest << 12) | encode_operand(op)?,
        ),
        WordNode::Sub(dest, src, op) => Ok(
            SUB | (*src << 16) | (*dest << 12) | encode_operand(op)?,
        ),
        WordNode::Mov(dest, op) => Ok(MOV | (*dest << 12) | encode_operand(op)?),
        WordNode::Cmp(src, op) => Ok(CMP | (*src << 16) | encode_operand(op)?),
        WordNode::B(cmp, label) => {
            let cond = match cmp {
                Comparison::Unset => COND_NONE,
                Comparison::Equal => COND_EQ,
                Comparison::NotEqual => COND_NE,
                Comparison::Less => COND_LT,
                Comparison::Greater => COND_GT,
            };
            match lookup(lbls, label) {
                Option::None => Err(
                    Error::plain(String::from_str("Unknown label ").concat(label.as_str())),
                ),
                Option::Some(pos) => if pos <= 0xFFFF {
                    Ok(cond | B | (pos as u32))
                } else {
                    Err(
                        Error::plain(
                            String::from_str("Label out of range ").concat(label.as_str()),
                        ),
                    )
                },
            }
        },
        WordNode::And(dest, src, op) => Ok(
            AND | (*src << 16) | (*dest << 12) | encode_operand(op)?,
        ),
        WordNode::Orr(dest, src, op) => Ok(
            ORR | (*src << 16) | (*dest << 12) | encode_operand(op)?,
        ),
        WordNode::Eor(dest, src, op) => Ok(
            EOR | (*src << 16) | (*dest << 12) | encode_operand(op)?,
        ),
        WordNode::Mvn(dest, op) => Ok(MVN | (*dest << 12) | encode_operand(op)?),
        WordNode::Lsl(dest, src, op) => Ok(
            LSL | (*src << 16) | (*dest << 12) | encode_operand(op)?,
        ),
        WordNode::Lsr(dest, src, op) => Ok(
            LSR | (*src << 16) | (*dest << 12) | encode_operand(op)?,
        ),
        WordNode::Halt => Ok(HALT),
    }
}

/// Assemble one operand into its field bits.
fn encode_operand(op: &Operand) -> (r: Result<u32, Error>)
    ensures
        match spec_encode_operand(*op) {
            Ok(w) => r matches Ok(v) && v == w,
            Err(m) => r matches Err(e) && e.message@ == m,
        },
{
    match op {
        Operand::Register(n) => Ok(*n),
        Operand::Literal(v) => match crate::cpu::encode_immediate(*v) {
            Option::Some(w) => Ok(w),
            Option::None => Err(Error::plain(String::from_str("Bad number"))),
        },
    }
}

/// The outcome of emitting nodes into a store: every node assembled
/// and was written; a node failed to assemble, with the message; or
/// the store was too small for a word.
pub ghost enum EmitOutcome {
    Done(Seq<u32>),
    BadNode(Seq<u32>, Seq<char>),
    StoreFail(Seq<u32>),
}

/// Emit the nodes from index `k` on into the store: each node's word
/// goes to the address equal to its index. Emission stops at the
/// first node that does not assemble or does not fit.
pub open spec fn spec_emit_from(
    nodes: Seq<WordNode>,
    lbls: Seq<(String, usize)>,
    mem: Seq<u32>,
    k: nat,
) -> EmitOutcome
    decreases nodes.len() - k,
{
    if k >= nodes.len() {
        EmitOutcome::Done(mem)
    } else {
        match spec_encode_node(nodes[k as int], lbls) {
            Err(m) => EmitOutcome::BadNode(mem, m),
            Ok(w) => if (k as int) < mem.len() {
                spec_emit_from(nodes, lbls, mem.update(k as int, w), k + 1)
            } else {
                EmitOutcome::StoreFail(mem)
            },
        }
    }
}

/// When emission succeeds, every node's encoded word stands at the
/// address equal to the node's index, and the rest of the store is
/// untouched: the label table's position of a label is exactly where
/// a branch encoded against it lands.
pub proof fn lemma_emit_contents(
    nodes: Seq<WordNode>,
    lbls: Seq<(String, usize)>,
    mem0: Seq<u32>,
    k: nat,
)
    requires
        spec_emit_from(nodes, lbls, mem0, k) is Done,
    ensures
        ({
            let m = spec_emit_from(nodes, lbls, mem0, k)->Done_0;
            &&& m.len() == mem0.len()
            &&& forall|j: int|
                k <= j < nodes.len() ==> #[trigger] spec_encode_node(nodes[j], lbls) is Ok
                    && m[j] == spec_encode_node(nodes[j], lbls)->Ok_0
            &&& forall|j: int|
                0 <= j < mem0.len() && !(k <= j < nodes.len()) ==> m[j] == mem0[j]
        }),
    decreases nodes.len() - k,
{
    if k < nodes.len() {
        match spec_encode_node(nodes[k as int], lbls) {
            Ok(w) => {
                lemma_emit_contents(nodes, lbls, mem0.update(k as int, w), k + 1);
            },
            Err(_) => {},
        }
    }
}

/// A parsed word-machine program: its nodes in source order, and the
/// table binding each label to the index of the node it stood before.
pub struct Program {
    pub nodes: Vec<WordNode>,
    pub labels: Vec<(String, usize)>,
}

/// Assembling a program into a word store.
pub trait Assemble {
    /// The nodes to emit.
    spec fn prog_nodes(&self) -> Seq<WordNode>;

    /// The label table.
    spec fn prog_labels(&self) -> Seq<(String, usize)>;

    /// Emit one instruction word per node, at the address equal to
    /// the node's index, resolving labels through the table. The
    /// store's contents afterwards, and whether assembly succeeded,
    /// are pinned down by [`spec_emit_from`].
    fn assemble<M: Storage>(&self, storage: &mut M) -> (r: Result<(), Error>)
        requires
            self.prog_nodes().len() <= u32::MAX,
        ensures
            ({
                let out = spec_emit_from(
                    self.prog_nodes(),
                    self.prog_labels(),
                    old(storage).contents(),
                    0,
                );
                match out {
                    EmitOutcome::Done(m) => r is Ok && final(storage).contents() == m,
                    EmitOutcome::BadNode(m, msg) => (r matches Err(e) && e.message@ == msg)
                        && final(storage).contents() == m,
                    EmitOutcome::StoreFail(m) => r is Err && final(storage).contents() == m,
                }
            }),
            crate::storage::events_extended(*old(storage), *final(storage)),
    ;
}

impl Assemble for Program {
    open spec fn prog_nodes(&self) -> Seq<WordNode> {
        self.nodes@
    }

    open spec fn prog_labels(&self) -> Seq<(String, usize)> {
        self.labels@
    }

    fn assemble<M: Storage>(&self, storage: &mut M) -> (r: Result<(), Error>) {
        let n = self.nodes.len();
        let mut i: usize = 0;
        while i < n
            invariant
                i <= n,
                n == self.nodes@.len(),
                n <= u32::MAX,
                spec_emit_from(self.nodes@, self.labels@, old(storage).contents(), 0)
                    == spec_emit_from(self.nodes@, self.labels@, storage.contents(), i as nat),
                crate::storage::events_extended(*old(storage), *storage),
            decreases n - i,
        {
            let w = encode_node(&self.nodes[i], &self.labels)?;
            match storage.set(i as u32, w) {
                Ok(()) => {},
                Err(e) => { return Err(e) },
            }
            i = i + 1;
        }
        Ok(())
    }
}

/// The operand field of a decoded instruction: the rotated-out
/// immediate value when the immediate flag is set, else the register
/// number in the low bits.
#[derive(Clone, Copy, PartialEq, Eq, Structural, Debug)]
pub enum DecodedOperand {
    Register(u32),
    Immediate(u32),
}

/// An instruction word taken apart by the sub-decoders: one variant
/// per operation, holding exactly the fields the emitter packs.
/// Branch targets come back as numeric offsets.
#[derive(Clone, Copy, PartialEq, Eq, Structural, Debug)]
pub enum Decoded {
    Ldr(u32, u32),
    Str(u32, u32),
    Add(u32, u32, DecodedOperand),
    Sub(u32, u32, DecodedOperand),
    Mov(u32, DecodedOperand),
    Cmp(u32, DecodedOperand),
    B(u32, u32),
    And(u32, u32, DecodedOperand),
    Orr(u32, u32, DecodedOperand),
    Eor(u32, u32, DecodedOperand),
    Mvn(u32, DecodedOperand),
    Lsl(u32, u32, DecodedOperand),
    Lsr(u32, u32, DecodedOperand),
    Halt,
}

/// The decoded operand of a word: immediates are rotated back out.
pub open spec fn spec_decode_operand(w: u32) -> DecodedOperand {
    if w & IMMEDIATE != 0 {
        DecodedOperand::Immediate(rotr32(spec_data(w), (2 * spec_shift(w)) as u32))
    } else {
        DecodedOperand::Register(w & 0x0000_0FFF)
    }
}

/// Take an instruction word apart into its fields. `None` for a word
/// the emitter cannot produce: an undefined operation, a set bit
/// outside the operation's layout, or a condition code on anything
/// but a branch.
pub open spec fn spec_disassemble(w: u32) -> Option<Decoded> {
    let op = spec_op(w);
    if op == B {
        if w & 0x0FFF_0000 == B {
            Some(Decoded::B(spec_cond(w), spec_offset(w)))
        } else {
            None
        }
    } else if spec_cond(w) != 0 || w & 0x0C00_0000 != 0 || w & INDIRECT != 0 {
        None
    } else if op == LDR {
        if w & IMMEDIATE == 0 {
            Some(Decoded::Ldr(spec_source(w), spec_offset(w)))
        } else {
            None
        }
    } else if op == STR {
        if w & IMMEDIATE == 0 {
            Some(Decoded::Str(spec_source(w), spec_offset(w)))
        } else {
            None
        }
    } else if op == ADD {
        Some(Decoded::Add(spec_dest(w), spec_source(w), spec_decode_operand(w)))
    } else if op == SUB {
        Some(Decoded::Sub(spec_dest(w), spec_source(w), spec_decode_operand(w)))
    } else if op == MOV {
        if spec_source(w) == 0 {
            Some(Decoded::Mov(spec_dest(w), spec_decode_operand(w)))
        } else {
            None
        }
    } else if op == CMP {
        if spec_dest(w) == 0 {
            Some(Decoded::Cmp(spec_source(w), spec_decode_operand(w)))
        } else {
            None
        }
    } else if op == AND {
        Some(Decoded::And(spec_dest(w), spec_source(w), spec_decode_operand(w)))
    } else if op == ORR {
        Some(Decoded::Orr(spec_dest(w), spec_source(w), spec_decode_operand(w)))
    } else if op == EOR {
        Some(Decoded::Eor(spec_dest(w), spec_source(w), spec_decode_operand(w)))
    } else if op == MVN {
        if spec_source(w) == 0 {
            Some(Decoded::Mvn(spec_dest(w), spec_decode_operand(w)))
        } else {
            None
        }
    } else if op == LSL {
        Some(Decoded::Lsl(spec_dest(w), spec_source(w), spec_decode_operand(w)))
    } else if op == LSR {
        Some(Decoded::Lsr(spec_dest(w), spec_source(w), spec_decode_operand(w)))
    } else if op == HALT {
        if w == HALT {
            Some(Decoded::Halt)
        } else {
            None
        }
    } else {
        None
    }
}

/// Take an instruction word apart into its fields.
pub fn disassemble(w: u32) -> (r: Option<Decoded>)
    ensures
        r == spec_disassemble(w),
{
    proof {
        crate::cpu::lemma_word_field_bounds(w);
        assert((2 * ((w & 0x0000_0F00) >> 8)) < 32) by (bit_vector);
    }
    let op = w & crate::cpu::OPERATION;
    let operand = if w & IMMEDIATE != 0 {
        DecodedOperand::Immediate(crate::cpu::rotate_right(w & DATA, 2 * ((w & 0x0000_0F00) >> 8)))
    } else {
        DecodedOperand::Register(w & 0x0000_0FFF)
    };
    let src = (w & SOURCE) >> 16;
    let dest = (w & DEST) >> 12;
    if op == B {
        if w & 0x0FFF_0000 == B {
            Some(Decoded::B(w & COND, w & OFFSET))
        } else {
            None
        }
    } else if (w & COND) != 0 || w & 0x0C00_0000 != 0 || w & INDIRECT != 0 {
        None
    } else if op == LDR {
        if w & IMMEDIATE == 0 {
            Some(Decoded::Ldr(src, w & OFFSET))
        } else {
            None
        }
    } else if op == STR {
        if w & IMMEDIATE == 0 {
            Some(Decoded::Str(src, w & OFFSET))
        } else {
            None
        }
    } else if op == ADD {
        Some(Decoded::Add(dest, src, operand))
    } else if op == SUB {
        Some(Decoded::Sub(dest, src, operand))
    } else if op == MOV {
        if src == 0 {
            Some(Decoded::Mov(dest, operand))
        } else {
            None
        }
    } else if op == CMP {
        if dest == 0 {
            Some(Decoded::Cmp(src, operand))
        } else {
            None
        }
    } else if op == AND {
        Some(Decoded::And(dest, src, operand))
    } else if op == ORR {
        Some(Decoded::Orr(dest, src, operand))
    } else if op == EOR {
        Some(Decoded::Eor(dest, src, operand))
    } else if op == MVN {
        if src == 0 {
            Some(Decoded::Mvn(dest, operand))
        } else {
            None
        }
    } else if op == LSL {
        Some(Decoded::Lsl(dest, src, operand))
    } else if op == LSR {
        Some(Decoded::Lsr(dest, src, operand))
    } else if op == HALT {
        if w == HALT {
            Some(Decoded::Halt)
        } else {
            None
        }
    } else {
        None
    }
}

/// Assemble a decoded instruction back into its word.
pub fn reassemble(d: &Decoded) -> (r: Option<u32>)
    ensures
        r == spec_reassemble(*d),
{
    match d {
        Decoded::Ldr(src, mem) => Some(LDR | (*src << 16) | *mem),
        Decoded::Str(src, mem) => Some(STR | (*src << 16) | *mem),
        Decoded::Add(dest, src, o) => match reassemble_operand(o) {
            Some(ob) => Some(ADD | (*src << 16) | (*dest << 12) | ob),
            None => None,
        },
        Decoded::Sub(dest, src, o) => match reassemble_operand(o) {
            Some(ob) => Some(SUB | (*src << 16) | (*dest << 12) | ob),
            None => None,
        },
        Decoded::Mov(dest, o) => match reassemble_operand(o) {
            Some(ob) => Some(MOV | (*dest << 12) | ob),
            None => None,
        },
        Decoded::Cmp(src, o) => match reassemble_operand(o) {
            Some(ob) => Some(CMP | (*src << 16) | ob),
            None => None,
        },
        Decoded::B(cond, off) => Some(*cond | B | *off),
        Decoded::And(dest, src, o) => match reassemble_operand(o) {
            Some(ob) => Some(AND | (*src << 16) | (*dest << 12) | ob),
            None => None,
        },
        Decoded::Orr(dest, src, o) => match reassemble_operand(o) {
            Some(ob) => Some(ORR | (*src << 16) | (*dest << 12) | ob),
            None => None,
        },
        Decoded::Eor(dest, src, o) => match reassemble_operand(o) {
            Some(ob) => Some(EOR | (*src << 16) | (*dest << 12) | ob),
            None => None,
        },
        Decoded::Mvn(dest, o) => match reassemble_operand(o) {
            Some(ob) => Some(MVN | (*dest << 12) | ob),
            None => None,
        },
        Decoded::Lsl(dest, src, o) => match reassemble_operand(o) {
            Some(ob) => Some(LSL | (*src << 16) | (*dest << 12) | ob),
            None => None,
        },
        Decoded::Lsr(dest, src, o) => match reassemble_operand(o) {
            Some(ob) => Some(LSR | (*src << 16) | (*dest << 12) | ob),
            None => None,
        },
        Decoded::Halt => Some(HALT),
    }
}

/// Assemble a decoded operand back into its field bits.
fn reassemble_operand(o: &DecodedOperand) -> (r: Option<u32>)
    ensures
        r == spec_reassemble_operand(*o),
{
    match o {
        DecodedOperand::Register(n) => Some(*n),
        DecodedOperand::Immediate(v) => crate::cpu::encode_immediate(*v),
    }
}

/// The word a decoded instruction assembles back to.
pub open spec fn spec_reassemble_operand(o: DecodedOperand) -> Option<u32> {
    match o {
        DecodedOperand::Register(n) => Some(n),
        DecodedOperand::Immediate(v) => spec_encode_immediate(v),
    }
}

/// The word a decoded instruction assembles back to: the same
/// encodings the emitter uses, with the numeric branch target taken
/// as it stands.
pub open spec fn spec_reassemble(d: Decoded) -> Option<u32> {
    match d {
        Decoded::Ldr(src, mem) => Some(LDR | (src << 16) | mem),
        Decoded::Str(src, mem) => Some(STR | (src << 16) | mem),
        Decoded::Add(dest, src, o) => match spec_reassemble_operand(o) {
            Some(ob) => Some(ADD | (src << 16) | (dest << 12) | ob),
            None => None,
        },
        Decoded::Sub(dest, src, o) => match spec_reassemble_operand(o) {
            Some(ob) => Some(SUB | (src << 16) | (dest << 12) | ob),
            None => None,
        },
        Decoded::Mov(dest, o) => match spec_reassemble_operand(o) {
            Some(ob) => Some(MOV | (dest << 12) | ob),
            None => None,
        },
        Decoded::Cmp(src, o) => match spec_reassemble_operand(o) {
            Some(ob) => Some(CMP | (src << 16) | ob),
            None => None,
        },
        Decoded::B(cond, off) => Some(cond | B | off),
        Decoded::And(dest, src, o) => match spec_reassemble_operand(o) {
            Some(ob) => Some(AND | (src << 16) | (dest << 12) | ob),
            None => None,
        },
        Decoded::Orr(dest, src, o) => match spec_reassemble_operand(o) {
            Some(ob) => Some(ORR | (src << 16) | (dest << 12) | ob),
            None => None,
        },
        Decoded::Eor(dest, src, o) => match spec_reassemble_operand(o) {
            Some(ob) => Some(EOR | (src << 16) | (dest << 12) | ob),
            None => None,
        },
        Decoded::Mvn(dest, o) => match spec_reassemble_operand(o) {
            Some(ob) => Some(MVN | (dest << 12) | ob),
            None => None,
        },
        Decoded::Lsl(dest, src, o) => match spec_reassemble_operand(o) {
            Some(ob) => Some(LSL | (src << 16) | (dest << 12) | ob),
            None => None,
        },
        Decoded::Lsr(dest, src, o) => match spec_reassemble_operand(o) {
            Some(ob) => Some(LSR | (src << 16) | (dest << 12) | ob),
            None => None,
        },
        Decoded::Halt => Some(HALT),
    }
}

/// A node whose register fields name existing registers and whose
/// offsets fit their fields.
pub open spec fn spec_operand_valid(o: Operand) -> bool {
    match o {
        Operand::Register(n) => n < 16,
        Operand::Literal(_) => true,
    }
}

/// A node the emitter can pack without losing bits.
pub open spec fn wnode_valid(n: WordNode) -> bool {
    match n {
        WordNode::Ldr(src, mem) => src < 16 && mem <= 0xFFFF,
        WordNode::Str(src, mem) => src < 16 && mem <= 0xFFFF,
        WordNode::Add(dest, src, o) => dest < 16 && src < 16 && spec_operand_valid(o),
        WordNode::Sub(dest, src, o) => dest < 16 && src < 16 && spec_operand_valid(o),
        WordNode::Mov(dest, o) => dest < 16 && spec_operand_valid(o),
        WordNode::Cmp(src, o) => src < 16 && spec_operand_valid(o),
        WordNode::B(_, _) => true,
        WordNode::And(dest, src, o) => dest < 16 && src < 16 && spec_operand_valid(o),
        WordNode::Orr(dest, src, o) => dest < 16 && src < 16 && spec_operand_valid(o),
        WordNode::Eor(dest, src, o) => dest < 16 && src < 16 && spec_operand_valid(o),
        WordNode::Mvn(dest, o) => dest < 16 && spec_operand_valid(o),
        WordNode::Lsl(dest, src, o) => dest < 16 && src < 16 && spec_operand_valid(o),
        WordNode::Lsr(dest, src, o) => dest < 16 && src < 16 && spec_operand_valid(o),
        WordNode::Halt => true,
    }
}

/// The operation constants occupy only the operation nibble, and the
/// condition constants only the condition nibble.
proof fn lemma_op_consts()
    by (bit_vector)
    ensures
        0x0010_0000u32 & 0xFF0F_FFFF == 0,
        0x0020_0000u32 & 0xFF0F_FFFF == 0,
        0x0040_0000u32 & 0xFF0F_FFFF == 0,
        0x0050_0000u32 & 0xFF0F_FFFF == 0,
        0x0060_0000u32 & 0xFF0F_FFFF == 0,
        0x0070_0000u32 & 0xFF0F_FFFF == 0,
        0x0090_0000u32 & 0xFF0F_FFFF == 0,
        0x00A0_0000u32 & 0xFF0F_FFFF == 0,
        0x00B0_0000u32 & 0xFF0F_FFFF == 0,
        0x00C0_0000u32 & 0xFF0F_FFFF == 0,
        0x00D0_0000u32 & 0xFF0F_FFFF == 0,
        0x00E0_0000u32 & 0xFF0F_FFFF == 0,
        0x0000_0000u32 & 0x0FFF_FFFF == 0,
        0x1000_0000u32 & 0x0FFF_FFFF == 0,
        0x2000_0000u32 & 0x0FFF_FFFF == 0,
        0x4000_0000u32 & 0x0FFF_FFFF == 0,
        0x8000_0000u32 & 0x0FFF_FFFF == 0,
{
}

/// Field extraction from a packed three-address word: the operand
/// occupies bit 24 and the low twelve bits, so the operation, source,
/// destination and operand fields all come back unchanged, and no
/// stray bit is set.
proof fn lemma_triple_fields(opc: u32, src: u32, dest: u32, o: u32)
    by (bit_vector)
    requires
        opc & 0xFF0F_FFFF == 0,
        src < 16,
        dest < 16,
        o & 0xFEFF_F000 == 0,
    ensures
        ({
            let w = opc | (src << 16) | (dest << 12) | o;
            &&& w & 0x00F0_0000 == opc
            &&& w & 0xF000_0000 == 0
            &&& w & 0x0C00_0000 == 0
            &&& w & 0x0200_0000 == 0
            &&& (w & 0x0100_0000) == (o & 0x0100_0000)
            &&& (w & 0x000F_0000) >> 16 == src
            &&& (w & 0x0000_F000) >> 12 == dest
            &&& (w & 0x0000_0F00) >> 8 == (o & 0x0000_0F00) >> 8
            &&& (w & 0x0000_00FF) == (o & 0x0000_00FF)
            &&& (w & 0x0000_0FFF) == (o & 0x0000_0FFF)
            &&& (src == 0 ==> w == opc | (dest << 12) | o)
            &&& (dest == 0 ==> w == opc | (src << 16) | o)
            &&& (o & 0x0100_0000 == 0 ==> (w & 0x0000_0FFF) == o)
        }),
{
}

/// Field extraction from a packed offset-form word (loads, stores).
proof fn lemma_offset_fields(opc: u32, src: u32, offset: u32)
    by (bit_vector)
    requires
        opc & 0xFF0F_FFFF == 0,
        src < 16,
        offset <= 0xFFFF,
    ensures
        ({
            let w = opc | (src << 16) | offset;
            &&& w & 0x00F0_0000 == opc
            &&& w & 0xF000_0000 == 0
            &&& w & 0x0C00_0000 == 0
            &&& w & 0x0200_0000 == 0
            &&& w & 0x0100_0000 == 0
            &&& (w & 0x000F_0000) >> 16 == src
            &&& (w & 0x0000_FFFF) == offset
        }),
{
}

/// Field extraction from a packed branch word.
proof fn lemma_branch_fields(cond: u32, pos: u32)
    by (bit_vector)
    requires
        cond & 0x0FFF_FFFF == 0,
        pos <= 0xFFFF,
    ensures
        ({
            let w = cond | 0x0080_0000 | pos;
            &&& w & 0x00F0_0000 == 0x0080_0000
            &&& w & 0x0FFF_0000 == 0x0080_0000
            &&& w & 0xF000_0000 == cond
            &&& (w & 0x0000_FFFF) == pos
        }),
{
}

/// An immediate operand carries only the flag bit, the rotation
/// nibble and the data byte.
proof fn lemma_immediate_shape(i: u32, b: u32)
    by (bit_vector)
    requires
        i < 16,
        b < 256,
    ensures
        (0x0100_0000u32 | (i << 8) | b) & 0xFEFF_F000 == 0,
        ((0x0100_0000u32 | (i << 8) | b) & 0x0000_0F00) >> 8 == i,
        (0x0100_0000u32 | (i << 8) | b) & 0x0000_00FF == b,
        (0x0100_0000u32 | (i << 8) | b) & 0x0100_0000 != 0,
{
}

/// What an encoded operand looks like, and how it decodes back.
proof fn lemma_operand_roundtrip(o: Operand)
    requires
        spec_operand_valid(o),
        spec_encode_operand(o) is Ok,
    ensures
        ({
            let ob = spec_encode_operand(o)->Ok_0;
            &&& ob & 0xFEFF_F000 == 0
            &&& spec_reassemble_operand(spec_decoded_of(ob)) == Some(ob)
        }),
{
    let ob = spec_encode_operand(o)->Ok_0;
    match o {
        Operand::Register(n) => {
            assert(n & 0xFEFF_F000 == 0 && n & 0x0100_0000 == 0 && n & 0x0000_0FFF == n)
                by (bit_vector)
                requires
                    n < 16,
            ;
        },
        Operand::Literal(v) => {
            let i = first_rot_from(v, 0)->0;
            crate::cpu::lemma_first_rot_smallest(v, 0, i);
            let b = crate::cpu::rotl32(v, (2 * i) as u32);
            lemma_immediate_shape(i as u32, b);
            crate::cpu::lemma_rot_inverse(v, (2 * i) as u32);
            assert(spec_decoded_of(ob) == DecodedOperand::Immediate(v));
        },
    }
}

/// The decoded operand of a word whose operand bits are `ob`, seen
/// through the operand bits alone.
pub open spec fn spec_decoded_of(ob: u32) -> DecodedOperand {
    if ob & IMMEDIATE != 0 {
        DecodedOperand::Immediate(rotr32(ob & 0x0000_00FF, (2 * ((ob & 0x0000_0F00) >> 8)) as u32))
    } else {
        DecodedOperand::Register(ob & 0x0000_0FFF)
    }
}

/// Round trip of the encoder: every instruction word the emitter
/// produces from a well-formed node disassembles into its fields, and
/// assembling those fields back yields the identical word.
pub proof fn lemma_assemble_disassemble(n: WordNode, lbls: Seq<(String, usize)>)
    requires
        wnode_valid(n),
        spec_encode_node(n, lbls) is Ok,
    ensures
        ({
            let w = spec_encode_node(n, lbls)->Ok_0;
            &&& spec_disassemble(w) is Some
            &&& spec_reassemble(spec_disassemble(w)->0) == Some(w)
        }),
{
    let w = spec_encode_node(n, lbls)->Ok_0;
    lemma_op_consts();
    match n {
        WordNode::Ldr(src, mem) => {
            lemma_offset_fields(LDR, src, mem);
        },
        WordNode::Str(src, mem) => {
            lemma_offset_fields(STR, src, mem);
        },
        WordNode::Add(dest, src, o) => {
            lemma_operand_roundtrip(o);
            lemma_triple_fields(ADD, src, dest, spec_encode_operand(o)->Ok_0);
            lemma_decoded_matches(w, spec_encode_operand(o)->Ok_0);
        },
        WordNode::Sub(dest, src, o) => {
            lemma_operand_roundtrip(o);
            lemma_triple_fields(SUB, src, dest, spec_encode_operand(o)->Ok_0);
            lemma_decoded_matches(w, spec_encode_operand(o)->Ok_0);
        },
        WordNode::Mov(dest, o) => {
            lemma_operand_roundtrip(o);
            lemma_triple_fields(MOV, 0, dest, spec_encode_operand(o)->Ok_0);
            lemma_decoded_matches(w, spec_encode_operand(o)->Ok_0);
        },
        WordNode::Cmp(src, o) => {
            lemma_operand_roundtrip(o);
            lemma_triple_fields(CMP, src, 0, spec_encode_operand(o)->Ok_0);
            lemma_decoded_matches(w, spec_encode_operand(o)->Ok_0);
        },
        WordNode::B(cmp, label) => {
            let pos = spec_lookup(lbls, label@)->0;
            lemma_branch_fields(spec_comparison_cond(cmp), pos as u32);
        },
        WordNode::And(dest, src, o) => {
            lemma_operand_roundtrip(o);
            lemma_triple_fields(AND, src, dest, spec_encode_operand(o)->Ok_0);
            lemma_decoded_matches(w, spec_encode_operand(o)->Ok_0);
        },
        WordNode::Orr(dest, src, o) => {
            lemma_operand_roundtrip(o);
            lemma_triple_fields(ORR, src, dest, spec_encode_operand(o)->Ok_0);
            lemma_decoded_matches(w, spec_encode_operand(o)->Ok_0);
        },
        WordNode::Eor(dest, src, o) => {
            lemma_operand_roundtrip(o);
            lemma_triple_fields(EOR, src, dest, spec_encode_operand(o)->Ok_0);
            lemma_decoded_matches(w, spec_encode_operand(o)->Ok_0);
        },
        WordNode::Mvn(dest, o) => {
            lemma_operand_roundtrip(o);
            lemma_triple_fields(MVN, 0, dest, spec_encode_operand(o)->Ok_0);
            lemma_decoded_matches(w, spec_encode_operand(o)->Ok_0);
        },
        WordNode::Lsl(dest, src, o) => {
            lemma_operand_roundtrip(o);
            lemma_triple_fields(LSL, src, dest, spec_encode_operand(o)->Ok_0);
            lemma_decoded_matches(w, spec_encode_operand(o)->Ok_0);
        },
        WordNode::Lsr(dest, src, o) => {
            lemma_operand_roundtrip(o);
            lemma_triple_fields(LSR, src, dest, spec_encode_operand(o)->Ok_0);
            lemma_decoded_matches(w, spec_encode_operand(o)->Ok_0);
        },
        WordNode::Halt => {
            assert(0x00F0_0000u32 & 0x00F0_0000 == 0x00F0_0000 && 0x00F0_0000u32 & 0xF000_0000
                == 0 && 0x00F0_0000u32 & 0x0C00_0000 == 0 && 0x00F0_0000u32 & 0x0200_0000 == 0)
                by (bit_vector);
        },
    }
}

/// The operand a word decodes to agrees with the operand seen through
/// the operand bits alone, once the fields agree.
proof fn lemma_decoded_matches(w: u32, ob: u32)
    requires
        (w & IMMEDIATE) == (ob & IMMEDIATE),
        spec_shift(w) == (ob & 0x0000_0F00) >> 8,
        spec_data(w) == ob & 0x0000_00FF,
        (w & 0x0000_0FFF) == (ob & 0x0000_0FFF),
    ensures
        spec_decode_operand(w) == spec_decoded_of(ob),
{
}

/// Whether a branch with the given condition bits is taken against
/// the given status word: unconditional branches always are; `NE` is
/// taken whenever the recorded comparison is not `EQ`; the rest
/// require their exact comparison.
pub open spec fn spec_w_branch_taken(cond: u32, status: u32) -> bool {
    cond == COND_NONE || cond == status & COND || (cond == COND_NE && status & COND != COND_EQ)
}

/// Every assembled branch lands on its label: the emitter encodes the
/// label's position from the table into the offset field, and
/// executing the branch word, when its condition holds of the status
/// register, sets the counter to exactly that position.
pub proof fn lemma_branch_lands(
    cmp: Comparison,
    label: String,
    lbls: Seq<(String, usize)>,
    s: crate::vm::WState,
)
    requires
        spec_encode_node(WordNode::B(cmp, label), lbls) is Ok,
        spec_w_branch_taken(
            spec_comparison_cond(cmp),
            s.r(crate::cpu::STATUS),
        ),
    ensures
        ({
            let w = spec_encode_node(WordNode::B(cmp, label), lbls)->Ok_0;
            let pos = spec_lookup(lbls, label@)->0;
            &&& spec_offset(w) == pos
            &&& spec_cond(w) == spec_comparison_cond(cmp)
            &&& crate::vm::spec_exec_op(s, w).1 is Continue
            &&& crate::vm::spec_exec_op(s, w).0 == s.wr(crate::cpu::COUNTER, pos as u32)
        }),
{
    let pos = spec_lookup(lbls, label@)->0;
    lemma_op_consts();
    lemma_branch_fields(spec_comparison_cond(cmp), pos as u32);
}

} // verus!

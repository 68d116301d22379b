//! The byte machine's assembly syntax tree.

use vstd::prelude::*;

use crate::token::Range;

verus! {

/// A register field of a node.
pub type Register = u8;

/// A literal byte field of a node.
pub type Literal = u8;

/// A label name.
pub type Label = String;

/// One parsed statement of the byte machine's assembly language.
#[derive(Debug)]
pub enum Type {
    Move(Register, Register),
    Add(Register, Register),
    Addc(Register, Register),
    Sub(Register, Register),
    And(Register, Register),
    Or(Register, Register),
    Xor(Register, Register),
    Cmp(Register, Register),
    Not(Register),
    Neg(Register),
    Inc(Register),
    Dec(Register),
    Shr(Register),
    Shla(Register),
    Shra(Register),
    Rol(Register),
    St(Register, Register),
    Ld(Register, Register),
    Push(Register),
    Pop(Register),
    Ldsa(Register, Literal),
    Addsp(Literal),
    Setsp(Literal),
    Pushall,
    Popall,
    /// Load immediate: the operand node is a number or a label
    /// reference.
    Ldi(Register, Box<Node>),
    Halt,
    Wait,
    Jsr(Label),
    Rts,
    Ioi,
    Rti,
    Crc,
    Osix,
    Rand,
    BeqBz(Label),
    BneBnz(Label),
    BhsBcs(Label),
    BloBcc(Label),
    Bmi(Label),
    Bpl(Label),
    Bvs(Label),
    Bvc(Label),
    Bhi(Label),
    Bls(Label),
    Bge(Label),
    Blt(Label),
    Bgt(Label),
    Ble(Label),
    Br(Label),
    Nop(Label),
    Ldc(Register, Register),
    /// A label definition bound to the current offset.
    Label(String),
    /// An entry-point marker.
    Entry(String),
    Signed(i8),
    Unsigned(u8),
    Asect(Literal),
    Dc(Vec<Node>),
    Ds(u8),
    End,
}

/// A node: a statement plus the source range it was parsed from.
#[derive(Debug)]
pub struct Node {
    pub data: Type,
    pub range: Range,
}

impl Node {
    pub fn new(data: Type, range: Range) -> (r: Self)
        ensures
            r.data == data,
            r.range == range,
    {
        Self { data, range }
    }

    pub fn range(&self) -> (r: Range)
        ensures
            r == self.range,
    {
        self.range
    }

    /// The statement the node holds.
    pub fn data(&self) -> (r: &Type)
        ensures
            r == &self.data,
    {
        &self.data
    }
}

/// The character of a decimal digit.
pub open spec fn digit_char(d: u8) -> char {
    if d == 0 {
        '0'
    } else if d == 1 {
        '1'
    } else if d == 2 {
        '2'
    } else if d == 3 {
        '3'
    } else if d == 4 {
        '4'
    } else if d == 5 {
        '5'
    } else if d == 6 {
        '6'
    } else if d == 7 {
        '7'
    } else if d == 8 {
        '8'
    } else {
        '9'
    }
}

/// The decimal digits of a byte, without leading zeros.
pub open spec fn spec_dec(n: u8) -> Seq<char> {
    if n >= 100 {
        seq![digit_char(n / 100), digit_char((n / 10) % 10), digit_char(n % 10)]
    } else if n >= 10 {
        seq![digit_char(n / 10), digit_char(n % 10)]
    } else {
        seq![digit_char(n)]
    }
}

/// The decimal text of a signed byte.
pub open spec fn spec_dec_signed(n: i8) -> Seq<char> {
    if n < 0 {
        seq!['-'] + spec_dec((0 - n as int) as u8)
    } else {
        spec_dec(n as u8)
    }
}

/// The text of one decimal digit.
fn digit_str(d: u8) -> (r: &'static str)
    requires
        d < 10,
    ensures
        r@ == seq![digit_char(d)],
{
    proof {
        reveal_strlit("0");
        reveal_strlit("1");
        reveal_strlit("2");
        reveal_strlit("3");
        reveal_strlit("4");
        reveal_strlit("5");
        reveal_strlit("6");
        reveal_strlit("7");
        reveal_strlit("8");
        reveal_strlit("9");
    }
    let r = if d == 0 {
        "0"
    } else if d == 1 {
        "1"
    } else if d == 2 {
        "2"
    } else if d == 3 {
        "3"
    } else if d == 4 {
        "4"
    } else if d == 5 {
        "5"
    } else if d == 6 {
        "6"
    } else if d == 7 {
        "7"
    } else if d == 8 {
        "8"
    } else {
        "9"
    };
    proof {
        assert(r@ =~= seq![digit_char(d)]);
    }
    r
}

/// Render a byte in decimal.
pub fn dec_text(n: u8) -> (r: String)
    ensures
        r@ == spec_dec(n),
{
    let r = if n >= 100 {
        String::from_str(digit_str(n / 100)).concat(digit_str((n / 10) % 10)).concat(
            digit_str(n % 10),
        )
    } else if n >= 10 {
        String::from_str(digit_str(n / 10)).concat(digit_str(n % 10))
    } else {
        String::from_str(digit_str(n))
    };
    proof {
        assert(r@ =~= spec_dec(n));
    }
    r
}

/// Render a signed byte in decimal.
pub fn dec_signed_text(n: i8) -> (r: String)
    ensures
        r@ == spec_dec_signed(n),
{
    if n < 0 {
        let m: u8 = (0i16 - n as i16) as u8;
        proof {
            reveal_strlit("-");
        }
        let r = String::from_str("-").concat(dec_text(m).as_str());
        proof {
            assert("-"@ =~= seq!['-']);
            assert(r@ =~= spec_dec_signed(n));
        }
        r
    } else {
        dec_text(n as u8)
    }
}

/// The decimal digits of a nonnegative number, without leading
/// zeros.
pub open spec fn spec_dec_nat(n: int) -> Seq<char>
    decreases n,
{
    if n < 0 {
        Seq::empty()
    } else if n < 10 {
        seq![digit_char(n as u8)]
    } else {
        spec_dec_nat(n / 10) + seq![digit_char((n % 10) as u8)]
    }
}

/// Render a machine-word count in decimal.
pub fn dec_nat_text(n: usize) -> (r: String)
    ensures
        r@ == spec_dec_nat(n as int),
    decreases n,
{
    if n < 10 {
        String::from_str(digit_str(n as u8))
    } else {
        let r = dec_nat_text(n / 10).concat(digit_str((n % 10) as u8));
        proof {
            assert(r@ =~= spec_dec_nat(n as int));
        }
        r
    }
}

/// The text of an immediate operand node: a number or a label name.
/// Operand positions hold only numbers and label references; anything
/// else prints as nothing.
pub open spec fn spec_operand_text(t: Type) -> Seq<char> {
    match t {
        Type::Unsigned(v) => spec_dec(v),
        Type::Signed(v) => spec_dec_signed(v),
        Type::Label(l) => l@,
        _ => Seq::empty(),
    }
}

/// The items of a data-constant node, joined by commas.
pub open spec fn spec_dc_join(items: Seq<Node>) -> Seq<char>
    decreases items.len(),
{
    if items.len() == 0 {
        Seq::empty()
    } else if items.len() == 1 {
        spec_operand_text(items[0].data)
    } else {
        spec_dc_join(items.drop_last()) + ","@ + spec_operand_text(items.last().data)
    }
}

/// The assembly text of a statement, as the parser reads it back.
pub open spec fn spec_type_text(t: Type) -> Seq<char> {
    match t {
        Type::Move(a, b) => "move r"@ + spec_dec(a) + ", r"@ + spec_dec(b),
        Type::Add(a, b) => "add r"@ + spec_dec(a) + ", r"@ + spec_dec(b),
        Type::Addc(a, b) => "addc r"@ + spec_dec(a) + ", r"@ + spec_dec(b),
        Type::Sub(a, b) => "sub r"@ + spec_dec(a) + ", r"@ + spec_dec(b),
        Type::And(a, b) => "and r"@ + spec_dec(a) + ", r"@ + spec_dec(b),
        Type::Or(a, b) => "or r"@ + spec_dec(a) + ", r"@ + spec_dec(b),
        Type::Xor(a, b) => "xor r"@ + spec_dec(a) + ", r"@ + spec_dec(b),
        Type::Cmp(a, b) => "cmp r"@ + spec_dec(a) + ", r"@ + spec_dec(b),
        Type::Not(a) => "not r"@ + spec_dec(a),
        Type::Neg(a) => "neg r"@ + spec_dec(a),
        Type::Inc(a) => "inc r"@ + spec_dec(a),
        Type::Dec(a) => "dec r"@ + spec_dec(a),
        Type::Shr(a) => "shr r"@ + spec_dec(a),
        Type::Shla(a) => "shla r"@ + spec_dec(a),
        Type::Shra(a) => "shra r"@ + spec_dec(a),
        Type::Rol(a) => "rol r"@ + spec_dec(a),
        Type::St(a, b) => "st r"@ + spec_dec(a) + ", r"@ + spec_dec(b),
        Type::Ld(a, b) => "ld r"@ + spec_dec(a) + ", r"@ + spec_dec(b),
        Type::Push(a) => "push r"@ + spec_dec(a),
        Type::Pop(a) => "pop r"@ + spec_dec(a),
        Type::Ldsa(a, o) => "ldsa r"@ + spec_dec(a) + ", "@ + spec_dec(o),
        Type::Addsp(o) => "addsp "@ + spec_dec(o),
        Type::Setsp(o) => "setsp "@ + spec_dec(o),
        Type::Pushall => "pushall"@,
        Type::Popall => "popall"@,
        Type::Ldi(a, i) => "ldi r"@ + spec_dec(a) + ", "@ + spec_operand_text(i.data),
        Type::Halt => "halt"@,
        Type::Wait => "wait"@,
        Type::Jsr(l) => "jsr "@ + l@,
        Type::Rts => "rts"@,
        Type::Ioi => "ioi"@,
        Type::Rti => "rti"@,
        Type::Crc => "crc"@,
        Type::Osix => "osix"@,
        Type::Rand => "rand"@,
        Type::BeqBz(l) => "beq "@ + l@,
        Type::BneBnz(l) => "bne "@ + l@,
        Type::BhsBcs(l) => "bhs "@ + l@,
        Type::BloBcc(l) => "blo "@ + l@,
        Type::Bmi(l) => "bmi "@ + l@,
        Type::Bpl(l) => "bpl "@ + l@,
        Type::Bvs(l) => "bvs "@ + l@,
        Type::Bvc(l) => "bvc "@ + l@,
        Type::Bhi(l) => "bhi "@ + l@,
        Type::Bls(l) => "bls "@ + l@,
        Type::Bge(l) => "bge "@ + l@,
        Type::Blt(l) => "blt "@ + l@,
        Type::Bgt(l) => "bgt "@ + l@,
        Type::Ble(l) => "ble "@ + l@,
        Type::Br(l) => "br "@ + l@,
        Type::Nop(l) => "nop "@ + l@,
        Type::Ldc(a, b) => "ldc r"@ + spec_dec(a) + ", r"@ + spec_dec(b),
        Type::Label(l) => l@,
        Type::Entry(l) => l@,
        Type::Signed(n) => spec_dec_signed(n),
        Type::Unsigned(n) => spec_dec(n),
        Type::Asect(p) => "asect "@ + spec_dec(p),
        Type::Dc(d) => "dc "@ + spec_dc_join(d@),
        Type::Ds(n) => "ds "@ + spec_dec(n),
        Type::End => "end"@,
    }
}

/// The text of an immediate operand node.
fn operand_text(n: &Node) -> (r: String)
    ensures
        r@ == spec_operand_text(n.data),
{
    match &n.data {
        Type::Unsigned(v) => dec_text(*v),
        Type::Signed(v) => dec_signed_text(*v),
        Type::Label(l) => l.clone(),
        _ => String::new(),
    }
}

impl Type {
    /// The assembly text of the statement.
    pub fn to_text(&self) -> (r: String)
        ensures
            r@ == spec_type_text(*self),
    {
        match self {
            Type::Move(a, b) => String::from_str("move r").concat(dec_text(*a).as_str()).concat(
                ", r",
            ).concat(dec_text(*b).as_str()),
            Type::Add(a, b) => String::from_str("add r").concat(dec_text(*a).as_str()).concat(
                ", r",
            ).concat(dec_text(*b).as_str()),
            Type::Addc(a, b) => String::from_str("addc r").concat(dec_text(*a).as_str()).concat(
                ", r",
            ).concat(dec_text(*b).as_str()),
            Type::Sub(a, b) => String::from_str("sub r").concat(dec_text(*a).as_str()).concat(
                ", r",
            ).concat(dec_text(*b).as_str()),
            Type::And(a, b) => String::from_str("and r").concat(dec_text(*a).as_str()).concat(
                ", r",
            ).concat(dec_text(*b).as_str()),
            Type::Or(a, b) => String::from_str("or r").concat(dec_text(*a).as_str()).concat(
                ", r",
            ).concat(dec_text(*b).as_str()),
            Type::Xor(a, b) => String::from_str("xor r").concat(dec_text(*a).as_str()).concat(
                ", r",
            ).concat(dec_text(*b).as_str()),
            Type::Cmp(a, b) => String::from_str("cmp r").concat(dec_text(*a).as_str()).concat(
                ", r",
            ).concat(dec_text(*b).as_str()),
            Type::Not(a) => String::from_str("not r").concat(dec_text(*a).as_str()),
            Type::Neg(a) => String::from_str("neg r").concat(dec_text(*a).as_str()),
            Type::Inc(a) => String::from_str("inc r").concat(dec_text(*a).as_str()),
            Type::Dec(a) => String::from_str("dec r").concat(dec_text(*a).as_str()),
            Type::Shr(a) => String::from_str("shr r").concat(dec_text(*a).as_str()),
            Type::Shla(a) => String::from_str("shla r").concat(dec_text(*a).as_str()),
            Type::Shra(a) => String::from_str("shra r").concat(dec_text(*a).as_str()),
            Type::Rol(a) => String::from_str("rol r").concat(dec_text(*a).as_str()),
            Type::St(a, b) => String::from_str("st r").concat(dec_text(*a).as_str()).concat(
                ", r",
            ).concat(dec_text(*b).as_str()),
            Type::Ld(a, b) => String::from_str("ld r").concat(dec_text(*a).as_str()).concat(
                ", r",
            ).concat(dec_text(*b).as_str()),
            Type::Push(a) => String::from_str("push r").concat(dec_text(*a).as_str()),
            Type::Pop(a) => String::from_str("pop r").concat(dec_text(*a).as_str()),
            Type::Ldsa(a, o) => String::from_str("ldsa r").concat(dec_text(*a).as_str()).concat(
                ", ",
            ).concat(dec_text(*o).as_str()),
            Type::Addsp(o) => String::from_str("addsp ").concat(dec_text(*o).as_str()),
            Type::Setsp(o) => String::from_str("setsp ").concat(dec_text(*o).as_str()),
            Type::Pushall => String::from_str("pushall"),
            Type::Popall => String::from_str("popall"),
            Type::Ldi(a, i) => String::from_str("ldi r").concat(dec_text(*a).as_str()).concat(
                ", ",
            ).concat(operand_text(i).as_str()),
            Type::Halt => String::from_str("halt"),
            Type::Wait => String::from_str("wait"),
            Type::Jsr(l) => String::from_str("jsr ").concat(l.as_str()),
            Type::Rts => String::from_str("rts"),
            Type::Ioi => String::from_str("ioi"),
            Type::Rti => String::from_str("rti"),
            Type::Crc => String::from_str("crc"),
            Type::Osix => String::from_str("osix"),
            Type::Rand => String::from_str("rand"),
            Type::BeqBz(l) => String::from_str("beq ").concat(l.as_str()),
            Type::BneBnz(l) => String::from_str("bne ").concat(l.as_str()),
            Type::BhsBcs(l) => String::from_str("bhs ").concat(l.as_str()),
            Type::BloBcc(l) => String::from_str("blo ").concat(l.as_str()),
            Type::Bmi(l) => String::from_str("bmi ").concat(l.as_str()),
            Type::Bpl(l) => String::from_str("bpl ").concat(l.as_str()),
            Type::Bvs(l) => String::from_str("bvs ").concat(l.as_str()),
            Type::Bvc(l) => String::from_str("bvc ").concat(l.as_str()),
            Type::Bhi(l) => String::from_str("bhi ").concat(l.as_str()),
            Type::Bls(l) => String::from_str("bls ").concat(l.as_str()),
            Type::Bge(l) => String::from_str("bge ").concat(l.as_str()),
            Type::Blt(l) => String::from_str("blt ").concat(l.as_str()),
            Type::Bgt(l) => String::from_str("bgt ").concat(l.as_str()),
            Type::Ble(l) => String::from_str("ble ").concat(l.as_str()),
            Type::Br(l) => String::from_str("br ").concat(l.as_str()),
            Type::Nop(l) => String::from_str("nop ").concat(l.as_str()),
            Type::Ldc(a, b) => String::from_str("ldc r").concat(dec_text(*a).as_str()).concat(
                ", r",
            ).concat(dec_text(*b).as_str()),
            Type::Label(l) => l.clone(),
            Type::Entry(l) => l.clone(),
            Type::Signed(n) => dec_signed_text(*n),
            Type::Unsigned(n) => dec_text(*n),
            Type::Asect(p) => String::from_str("asect ").concat(dec_text(*p).as_str()),
            Type::Dc(d) => {
                let mut out = String::from_str("dc ");
                let mut i: usize = 0;
                proof {
                    assert(d@.subrange(0, 0) =~= Seq::<Node>::empty());
                }
                while i < d.len()
                    invariant
                        i <= d@.len(),
                        out@ == "dc "@ + spec_dc_join(d@.subrange(0, i as int)),
                    decreases d@.len() - i,
                {
                    if i > 0 {
                        out = out.concat(",");
                    }
                    out = out.concat(operand_text(&d[i]).as_str());
                    proof {
                        assert(d@.subrange(0, i as int + 1).drop_last() =~= d@.subrange(
                            0,
                            i as int,
                        ));
                        assert(d@.subrange(0, i as int + 1).last() == d@[i as int]);
                        assert(out@ =~= "dc "@ + spec_dc_join(d@.subrange(0, i as int + 1)));
                    }
                    i = i + 1;
                }
                proof {
                    assert(d@.subrange(0, d@.len() as int) =~= d@);
                }
                out
            },
            Type::Ds(n) => String::from_str("ds ").concat(dec_text(*n).as_str()),
            Type::End => String::from_str("end"),
        }
    }
}

} // verus!

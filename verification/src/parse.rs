//! The byte machine's assembly parser.
//!
//! The parser drives the lexer, keeping one current section and the
//! list of sections already built. Its operand readers are pinned
//! down against [`spec_lex`]: each one states exactly which token
//! shapes it accepts, what node it builds from them, and which error
//! it raises otherwise.

use vstd::prelude::*;

use crate::node::{digit_char, spec_dec, spec_type_text, Node, Register, Type};
use crate::section::Section;
use crate::stream::{
    char_matches, is_alnum, is_alpha, is_dec, is_ws, lemma_scan_exact, scan_end, spec_lex,
    spec_lex_register, Error, Input, LexResult, Matcher, SpecTok,
};
use crate::token::{Range, Type as TokenType};

verus! {

/// Which two-register mnemonic a statement carries.
#[derive(Clone, Copy, PartialEq, Eq, Structural, Debug)]
pub enum TwoReg {
    St,
    Ld,
    Add,
    Sub,
    Or,
    Xor,
    And,
}

/// The node a two-register mnemonic builds.
pub open spec fn mk_two(mn: TwoReg, a: u8, b: u8) -> Type {
    match mn {
        TwoReg::St => Type::St(a, b),
        TwoReg::Ld => Type::Ld(a, b),
        TwoReg::Add => Type::Add(a, b),
        TwoReg::Sub => Type::Sub(a, b),
        TwoReg::Or => Type::Or(a, b),
        TwoReg::Xor => Type::Xor(a, b),
        TwoReg::And => Type::And(a, b),
    }
}

/// What `number` promises: the next token is an unsigned numeric
/// literal, or a minus followed by a decimal literal up to 128, and
/// the returned node carries its value; anything else is an error
/// naming what was wrong.
pub open spec fn number_post(s: Seq<char>, p: int, r: Result<Node, Error>, endp: int) -> bool {
    match spec_lex(s, p) {
        LexResult::Fail(m, a, b) => r matches Err(e) && e.message@ == m,
        LexResult::Tok(st, a, b) => match st {
            SpecTok::Decimal(n) => (r matches Ok(nd) && nd.data == Type::Unsigned(n) && nd.range
                == crate::stream::range_at(s, a, b)) && endp == b,
            SpecTok::Hexadecimal(n) => (r matches Ok(nd) && nd.data == Type::Unsigned(n)
                && nd.range == crate::stream::range_at(s, a, b)) && endp == b,
            SpecTok::Binary(n) => (r matches Ok(nd) && nd.data == Type::Unsigned(n) && nd.range
                == crate::stream::range_at(s, a, b)) && endp == b,
            SpecTok::Minus => match spec_lex(s, b) {
                LexResult::Fail(m2, a2, b2) => r matches Err(e) && e.message@ == m2,
                LexResult::Tok(st2, a2, b2) => match st2 {
                    SpecTok::Decimal(n) => if n <= 128 {
                        (r matches Ok(nd) && nd.data == Type::Signed((0 - n as int) as i8)
                            && nd.range == crate::stream::range_at(s, a, b)) && endp == b2
                    } else {
                        (r matches Err(e) && e.message@
                            == "Expected a number in range -128->127"@)
                    },
                    SpecTok::Hexadecimal(_) => (r matches Err(e) && e.message@
                        == "Only decimal numbers can be signed"@),
                    SpecTok::Binary(_) => (r matches Err(e) && e.message@
                        == "Only decimal numbers can be signed"@),
                    _ => (r matches Err(e) && e.message@ == "Expected a number"@),
                },
            },
            _ => (r matches Err(e) && e.message@ == "Expected a number"@),
        },
    }
}


/// An operand of `ldi` or `dc` as the specification sees it: a label
/// reference or a number. `Other` covers node forms no operand
/// position produces.
pub ghost enum OperandV {
    Label(Seq<char>),
    Unsigned(u8),
    Signed(i8),
    Other,
}

/// A parsed statement as the specification sees it: the node kinds
/// the parser produces, with label names as character sequences and
/// no source ranges. `Other` covers node forms the parser never
/// builds.
pub ghost enum NodeV {
    Two(TwoReg, u8, u8),
    Ldi(u8, OperandV),
    Halt,
    Wait,
    Label(Seq<char>),
    Entry(Seq<char>),
    Unsigned(u8),
    Signed(i8),
    Ds(u8),
    Other,
}

/// A section as the specification sees it.
pub ghost enum SectV {
    Abs { origin: u8, content: Seq<NodeV> },
    Rel { name: Seq<char>, content: Seq<NodeV> },
    Tpl { name: Seq<char>, content: Seq<NodeV> },
    Unset,
}

/// The parser's section state as the specification sees it: the
/// section being built and the finished ones.
pub ghost struct PState {
    pub building: SectV,
    pub done: Seq<SectV>,
}

/// An operand node seen as a specification operand.
pub open spec fn operand_view(t: Type) -> OperandV {
    match t {
        Type::Label(l) => OperandV::Label(l@),
        Type::Unsigned(v) => OperandV::Unsigned(v),
        Type::Signed(v) => OperandV::Signed(v),
        _ => OperandV::Other,
    }
}

/// A node seen as a specification statement: its kind and payload,
/// without its source range.
pub open spec fn node_view(n: Node) -> NodeV {
    match n.data {
        Type::St(a, b) => NodeV::Two(TwoReg::St, a, b),
        Type::Ld(a, b) => NodeV::Two(TwoReg::Ld, a, b),
        Type::Add(a, b) => NodeV::Two(TwoReg::Add, a, b),
        Type::Sub(a, b) => NodeV::Two(TwoReg::Sub, a, b),
        Type::Or(a, b) => NodeV::Two(TwoReg::Or, a, b),
        Type::Xor(a, b) => NodeV::Two(TwoReg::Xor, a, b),
        Type::And(a, b) => NodeV::Two(TwoReg::And, a, b),
        Type::Ldi(r, i) => NodeV::Ldi(r, operand_view(i.data)),
        Type::Halt => NodeV::Halt,
        Type::Wait => NodeV::Wait,
        Type::Label(l) => NodeV::Label(l@),
        Type::Entry(l) => NodeV::Entry(l@),
        Type::Unsigned(v) => NodeV::Unsigned(v),
        Type::Signed(v) => NodeV::Signed(v),
        Type::Ds(n) => NodeV::Ds(n),
        _ => NodeV::Other,
    }
}

/// A section seen by the specification: kind, place or name, and its
/// nodes in order.
pub open spec fn sect_view(s: Section) -> SectV {
    match s {
        Section::Absolute { pos, content } => SectV::Abs {
            origin: pos,
            content: node_views(content@),
        },
        Section::RSect { name, content } => SectV::Rel {
            name: name@,
            content: node_views(content@),
        },
        Section::Template { name, content } => SectV::Tpl {
            name: name@,
            content: node_views(content@),
        },
        Section::Unset => SectV::Unset,
    }
}

impl SectV {
    /// The same section with one more statement; no section stays
    /// none.
    pub open spec fn with_node(self, n: NodeV) -> SectV {
        match self {
            SectV::Abs { origin, content } => SectV::Abs { origin, content: content.push(n) },
            SectV::Rel { name, content } => SectV::Rel { name, content: content.push(n) },
            SectV::Tpl { name, content } => SectV::Tpl { name, content: content.push(n) },
            SectV::Unset => SectV::Unset,
        }
    }
}

impl PState {
    /// The same state with one more statement in the open section.
    pub open spec fn with_node(self, n: NodeV) -> PState {
        PState { building: self.building.with_node(n), done: self.done }
    }
}

/// The finished sections once the one being built is closed.
pub open spec fn flushed(ps: PState) -> Seq<SectV> {
    if ps.building is Unset {
        ps.done
    } else {
        ps.done.push(ps.building)
    }
}

/// The first finished relocatable section of the given name, if any.
pub open spec fn find_rsect(done: Seq<SectV>, name: Seq<char>) -> Option<int>
    decreases done.len(),
{
    if done.len() == 0 {
        Option::None
    } else if done[0] matches SectV::Rel { name: n, .. } && n == name {
        Option::Some(0)
    } else {
        match find_rsect(done.skip(1), name) {
            Option::Some(j) => Option::Some(j + 1),
            Option::None => Option::None,
        }
    }
}

/// What opening a relocatable section does to the state: the open
/// section is closed, and the named one is taken back out of the
/// finished list with its earlier content, or started fresh.
pub open spec fn spec_open_rsect(ps: PState, name: Seq<char>) -> PState {
    let d = flushed(ps);
    match find_rsect(d, name) {
        Option::Some(j) => PState { building: d[j], done: d.remove(j) },
        Option::None => PState {
            building: SectV::Rel { name, content: Seq::empty() },
            done: d,
        },
    }
}

/// What the numeric-literal reader yields: the number and the
/// position after it, or the error message.
pub ghost enum NumOut {
    Num(OperandV, int),
    Fail(Seq<char>),
}

/// The outcome of reading a number at `p`: an unsigned literal, or a
/// minus followed by a decimal up to 128.
pub open spec fn spec_number_out(s: Seq<char>, p: int) -> NumOut {
    match spec_lex(s, p) {
        LexResult::Fail(m, a, b) => NumOut::Fail(m),
        LexResult::Tok(t, a, b) => match t {
            SpecTok::Decimal(n) => NumOut::Num(OperandV::Unsigned(n), b),
            SpecTok::Hexadecimal(n) => NumOut::Num(OperandV::Unsigned(n), b),
            SpecTok::Binary(n) => NumOut::Num(OperandV::Unsigned(n), b),
            SpecTok::Minus => match spec_lex(s, b) {
                LexResult::Fail(m2, a2, b2) => NumOut::Fail(m2),
                LexResult::Tok(t2, a2, b2) => match t2 {
                    SpecTok::Decimal(n) => if n <= 128 {
                        NumOut::Num(OperandV::Signed((0 - n as int) as i8), b2)
                    } else {
                        NumOut::Fail("Expected a number in range -128->127"@)
                    },
                    SpecTok::Hexadecimal(_) => NumOut::Fail("Only decimal numbers can be signed"@),
                    SpecTok::Binary(_) => NumOut::Fail("Only decimal numbers can be signed"@),
                    _ => NumOut::Fail("Expected a number"@),
                },
            },
            _ => NumOut::Fail("Expected a number"@),
        },
    }
}

/// The outcome of reading an immediate operand at `p`: a label
/// reference, a single-byte text literal, or a number.
pub open spec fn spec_immediate_out(s: Seq<char>, p: int) -> NumOut {
    match spec_lex(s, p) {
        LexResult::Fail(m, a, b) => NumOut::Fail(m),
        LexResult::Tok(t, a, b) => match t {
            SpecTok::Symbol(sym) => NumOut::Num(OperandV::Label(sym), b),
            SpecTok::Text(txt) => if vstd::utf8::encode_utf8(txt).len() == 1 {
                NumOut::Num(OperandV::Unsigned(vstd::utf8::encode_utf8(txt)[0]), b)
            } else {
                NumOut::Fail("Expected a single byte"@)
            },
            _ => spec_number_out(s, p),
        },
    }
}

/// The data-constant node an immediate operand becomes.
pub open spec fn operand_node(v: OperandV) -> NodeV {
    match v {
        OperandV::Label(l) => NodeV::Label(l),
        OperandV::Unsigned(n) => NodeV::Unsigned(n),
        OperandV::Signed(n) => NodeV::Signed(n),
        OperandV::Other => NodeV::Other,
    }
}

/// What one statement does: the new state and the position after it,
/// the end of parsing, or an error message. Failing statements leave
/// the sections as they were.
pub ghost enum StmtOut {
    Next(PState, int),
    Stop,
    Fail(Seq<char>),
}

/// The two register operands of a two-register mnemonic, and the
/// statement they append.
pub open spec fn spec_two_reg(s: Seq<char>, p: int, mn: TwoReg, ps: PState) -> StmtOut {
    match spec_lex(s, p) {
        LexResult::Fail(m, a1, b1) => StmtOut::Fail(m),
        LexResult::Tok(t1, a1, b1) => match t1 {
            SpecTok::Register(r1) => match spec_lex(s, b1) {
                LexResult::Fail(m, a2, b2) => StmtOut::Fail(m),
                LexResult::Tok(t2, a2, b2) => match t2 {
                    SpecTok::Comma => match spec_lex(s, b2) {
                        LexResult::Fail(m, a3, b3) => StmtOut::Fail(m),
                        LexResult::Tok(t3, a3, b3) => match t3 {
                            SpecTok::Register(r2) => if ps.building is Unset {
                                StmtOut::Fail("Not in a section"@)
                            } else {
                                StmtOut::Next(ps.with_node(NodeV::Two(mn, r1, r2)), b3)
                            },
                            _ => StmtOut::Fail("Expected a register"@),
                        },
                    },
                    _ => StmtOut::Fail("Expected a comma"@),
                },
            },
            _ => StmtOut::Fail("Expected a register"@),
        },
    }
}

/// What the statement introduced by the symbol `sym`, whose tokens
/// follow from position `b`, does to the state.
pub open spec fn spec_statement(s: Seq<char>, sym: Seq<char>, b: int, ps: PState) -> StmtOut {
    if sym == "asect"@ {
        match spec_number_out(s, b) {
            NumOut::Fail(m) => StmtOut::Fail(m),
            NumOut::Num(v, e) => match v {
                OperandV::Unsigned(n) => StmtOut::Next(
                    PState {
                        building: SectV::Abs { origin: n, content: Seq::empty() },
                        done: flushed(ps),
                    },
                    e,
                ),
                _ => StmtOut::Fail("Expected address"@),
            },
        }
    } else if sym == "rsect"@ {
        match spec_lex(s, b) {
            LexResult::Fail(m, a, e) => StmtOut::Fail(m),
            LexResult::Tok(t, a, e) => match t {
                SpecTok::Symbol(name) => StmtOut::Next(spec_open_rsect(ps, name), e),
                _ => StmtOut::Fail("Expected a symbol"@),
            },
        }
    } else if sym == "st"@ {
        spec_two_reg(s, b, TwoReg::St, ps)
    } else if sym == "ld"@ {
        spec_two_reg(s, b, TwoReg::Ld, ps)
    } else if sym == "add"@ {
        spec_two_reg(s, b, TwoReg::Add, ps)
    } else if sym == "sub"@ {
        spec_two_reg(s, b, TwoReg::Sub, ps)
    } else if sym == "or"@ {
        spec_two_reg(s, b, TwoReg::Or, ps)
    } else if sym == "xor"@ {
        spec_two_reg(s, b, TwoReg::Xor, ps)
    } else if sym == "and"@ {
        spec_two_reg(s, b, TwoReg::And, ps)
    } else if sym == "ldi"@ {
        match spec_lex(s, b) {
            LexResult::Fail(m, a1, e1) => StmtOut::Fail(m),
            LexResult::Tok(t1, a1, e1) => match t1 {
                SpecTok::Register(rn) => match spec_lex(s, e1) {
                    LexResult::Fail(m, a2, e2) => StmtOut::Fail(m),
                    LexResult::Tok(t2, a2, e2) => match t2 {
                        SpecTok::Comma => match spec_immediate_out(s, e2) {
                            NumOut::Fail(m) => StmtOut::Fail(m),
                            NumOut::Num(v, e3) => if ps.building is Unset {
                                StmtOut::Fail("Not in a section"@)
                            } else {
                                StmtOut::Next(ps.with_node(NodeV::Ldi(rn, v)), e3)
                            },
                        },
                        _ => StmtOut::Fail("Expected a comma"@),
                    },
                },
                _ => StmtOut::Fail("Expected a register"@),
            },
        }
    } else if sym == "halt"@ {
        if ps.building is Unset {
            StmtOut::Fail("Not in a section"@)
        } else {
            StmtOut::Next(ps.with_node(NodeV::Halt), b)
        }
    } else if sym == "wait"@ {
        if ps.building is Unset {
            StmtOut::Fail("Not in a section"@)
        } else {
            StmtOut::Next(ps.with_node(NodeV::Wait), b)
        }
    } else if sym == "dc"@ {
        match spec_immediate_out(s, b) {
            NumOut::Fail(m) => StmtOut::Fail(m),
            NumOut::Num(v, e) => if ps.building is Unset {
                StmtOut::Fail("Not in a section"@)
            } else {
                StmtOut::Next(ps.with_node(operand_node(v)), e)
            },
        }
    } else if sym == "ds"@ {
        match spec_number_out(s, b) {
            NumOut::Fail(m) => StmtOut::Fail(m),
            NumOut::Num(v, e) => match v {
                OperandV::Unsigned(n) => if ps.building is Unset {
                    StmtOut::Fail("Not in a section"@)
                } else {
                    StmtOut::Next(ps.with_node(NodeV::Ds(n)), e)
                },
                _ => StmtOut::Fail("Expected amount"@),
            },
        }
    } else if sym == "end"@ {
        StmtOut::Stop
    } else {
        match spec_lex(s, b) {
            LexResult::Fail(m, a, e) => StmtOut::Fail(m),
            LexResult::Tok(t, a, e) => match t {
                SpecTok::Colon => if ps.building is Unset {
                    StmtOut::Fail("Not in a section"@)
                } else {
                    StmtOut::Next(ps.with_node(NodeV::Label(sym)), e)
                },
                SpecTok::Gt => if ps.building is Unset {
                    StmtOut::Fail("Not in a section"@)
                } else {
                    StmtOut::Next(ps.with_node(NodeV::Entry(sym)), e)
                },
                _ => StmtOut::Fail("Unexpected "@ + sym),
            },
        }
    }
}

/// The outcome of the whole parse from a position: the finished
/// sections on reaching `end`, or the error message and the sections
/// finished by then. `Stuck` marks the impossible case of a lexer
/// that did not advance; it keeps the recursion well-founded and
/// never arises ([`lemma_statements_not_stuck`]).
pub ghost enum ParseOut {
    Parsed(Seq<SectV>),
    Failed(Seq<char>, Seq<SectV>),
    Stuck,
}

/// The top-level parse loop: statements build sections until `end`,
/// a comment is skipped, and anything else is an error.
pub open spec fn spec_statements(s: Seq<char>, pos: int, ps: PState) -> ParseOut
    decreases s.len() - pos,
{
    match spec_lex(s, pos) {
        LexResult::Fail(m, a, b) => ParseOut::Failed(m, flushed(ps)),
        LexResult::Tok(t, a, b) => match t {
            SpecTok::Symbol(sym) => match spec_statement(s, sym, b, ps) {
                StmtOut::Fail(m) => ParseOut::Failed(m, flushed(ps)),
                StmtOut::Stop => ParseOut::Parsed(flushed(ps)),
                StmtOut::Next(ps2, e) => if pos < e && e <= s.len() {
                    spec_statements(s, e, ps2)
                } else {
                    ParseOut::Stuck
                },
            },
            SpecTok::Comment(_) => if pos < b && b <= s.len() {
                spec_statements(s, b, ps)
            } else {
                ParseOut::Stuck
            },
            _ => ParseOut::Failed("Unexpected token"@, flushed(ps)),
        },
    }
}


/// The sections of a list, each seen by the specification.
pub open spec fn sect_views(v: Seq<Section>) -> Seq<SectV> {
    v.map_values(|x: Section| sect_view(x))
}

/// The nodes of a list, each seen by the specification.
pub open spec fn node_views(v: Seq<Node>) -> Seq<NodeV> {
    v.map_values(|x: Node| node_view(x))
}

/// A section that is a relocatable one of the given name.
pub open spec fn is_rel_named(v: SectV, nm: Seq<char>) -> bool {
    v matches SectV::Rel { name, .. } && name == nm
}

/// Appending a node and taking views commute.
proof fn lemma_node_views_push(v: Seq<Node>, n: Node)
    ensures
        node_views(v.push(n)) =~= node_views(v).push(node_view(n)),
{
}

/// Appending a section and taking views commute.
proof fn lemma_sect_views_push(v: Seq<Section>, s: Section)
    ensures
        sect_views(v.push(s)) =~= sect_views(v).push(sect_view(s)),
{
}

/// Removing a section and taking views commute.
proof fn lemma_sect_views_remove(v: Seq<Section>, j: int)
    requires
        0 <= j < v.len(),
    ensures
        sect_views(v.remove(j)) =~= sect_views(v).remove(j),
{
    v.remove_ensures(j);
    sect_views(v).remove_ensures(j);
}

/// Appending a node to a section, seen by the specification, appends
/// its view.
proof fn lemma_sect_view_push(pre: Section, post: Section, n: Node)
    requires
        !(pre is Unset),
        pre.same_frame(post),
        post.spec_content() == pre.spec_content().push(n),
    ensures
        sect_view(post) == sect_view(pre).with_node(node_view(n)),
{
    lemma_node_views_push(pre.spec_content(), n);
    match pre {
        Section::Absolute { .. } => {
            assert(sect_view(post) =~= sect_view(pre).with_node(node_view(n)));
        },
        Section::RSect { .. } => {
            assert(sect_view(post) =~= sect_view(pre).with_node(node_view(n)));
        },
        Section::Template { .. } => {
            assert(sect_view(post) =~= sect_view(pre).with_node(node_view(n)));
        },
        Section::Unset => {},
    }
}

/// The first matching index is what the search finds.
proof fn lemma_find_rsect_at(d: Seq<SectV>, nm: Seq<char>, j: int)
    requires
        0 <= j < d.len(),
        is_rel_named(d[j], nm),
        forall|k: int| 0 <= k < j ==> !is_rel_named(#[trigger] d[k], nm),
    ensures
        find_rsect(d, nm) == Some(j),
    decreases j,
{
    if j == 0 {
    } else {
        assert(!is_rel_named(d[0], nm));
        lemma_find_rsect_at(d.skip(1), nm, j - 1);
    }
}

/// With no matching section, the search finds none.
proof fn lemma_find_rsect_none(d: Seq<SectV>, nm: Seq<char>)
    requires
        forall|k: int| 0 <= k < d.len() ==> !is_rel_named(#[trigger] d[k], nm),
    ensures
        find_rsect(d, nm) is None,
    decreases d.len(),
{
    if d.len() > 0 {
        lemma_find_rsect_none(d.skip(1), nm);
    }
}

/// The byte machine's parser: the lexer it drives, the section being
/// built, and the sections already finished.
pub struct Parser {
    input: Input,
    building: Section,
    done: Vec<Section>,
}

impl Parser {
    /// The lexer, for use in specifications.
    pub closed spec fn inp(self) -> Input {
        self.input
    }

    /// The section being built, for use in specifications.
    pub closed spec fn building_spec(self) -> Section {
        self.building
    }

    /// The finished sections, for use in specifications.
    pub closed spec fn done_spec(self) -> Seq<Section> {
        self.done@
    }

    /// The parser is usable: its lexer is.
    pub open spec fn wf(self) -> bool {
        self.inp().wf()
    }

    /// The input text.
    pub open spec fn text(self) -> Seq<char> {
        self.inp().text()
    }

    /// The position the next token starts from.
    pub open spec fn peek_pos(self) -> int {
        self.inp().peek_pos()
    }

    /// The section state as the specification sees it.
    pub open spec fn pstate(self) -> PState {
        PState {
            building: sect_view(self.building_spec()),
            done: sect_views(self.done_spec()),
        }
    }

    /// The state of the parser other than its lexer is unchanged.
    pub open spec fn sections_unchanged(self, other: Parser) -> bool {
        self.building_spec() == other.building_spec() && self.done_spec() == other.done_spec()
    }

    /// A parser over the given input, with no section open.
    pub fn new(input: Input) -> (r: Self)
        requires
            input.wf(),
        ensures
            r.wf(),
            r.text() == input.text(),
            r.peek_pos() == input.peek_pos(),
            r.building_spec() is Unset,
            r.done_spec() == Seq::<Section>::empty(),
    {
        Self { input, building: Section::Unset, done: Vec::new() }
    }

    /// The sections parsed so far, in the order they were finished.
    pub fn sections(&self) -> (r: &Vec<Section>)
        ensures
            r@ == self.done_spec(),
    {
        &self.done
    }

    /// The lexer, for printing errors against the source text.
    pub fn input(&self) -> (r: &Input)
        ensures
            *r == self.inp(),
    {
        &self.input
    }

    /// Read a register token.
    fn register(&mut self) -> (r: Result<(Register, Range), Error>)
        requires
            old(self).wf(),
        ensures
            final(self).wf(),
            final(self).text() == old(self).text(),
            old(self).sections_unchanged(*final(self)),
            old(self).peek_pos() <= final(self).peek_pos(),
            match spec_lex(old(self).text(), old(self).peek_pos()) {
                LexResult::Fail(m, a, b) => r matches Err(e) && e.message@ == m,
                LexResult::Tok(st, a, b) => match st {
                    SpecTok::Register(n) => (r matches Ok(p) && p.0 == n && p.1
                        == crate::stream::range_at(old(self).text(), a, b))
                        && final(self).peek_pos() == b,
                    _ => (r matches Err(e) && e.message@ == "Expected a register"@),
                },
            },
    {
        proof {
            self.input.lemma_peek_pos_bounds();
            crate::stream::lemma_spec_lex_bounds(self.text(), self.peek_pos());
        }
        let token = match self.input.consume() {
            Ok(t) => t,
            Err(e) => { return Err(e) },
        };
        match token.data() {
            TokenType::Register(reg) => Ok((*reg, token.range())),
            _ => Err(Error::new(String::from_str("Expected a register"), token.range())),
        }
    }

    /// Read a comma.
    fn comma(&mut self) -> (r: Result<Range, Error>)
        requires
            old(self).wf(),
        ensures
            final(self).wf(),
            final(self).text() == old(self).text(),
            old(self).sections_unchanged(*final(self)),
            old(self).peek_pos() <= final(self).peek_pos(),
            match spec_lex(old(self).text(), old(self).peek_pos()) {
                LexResult::Fail(m, a, b) => r matches Err(e) && e.message@ == m,
                LexResult::Tok(st, a, b) => match st {
                    SpecTok::Comma => (r matches Ok(rg) && rg == crate::stream::range_at(
                        old(self).text(),
                        a,
                        b,
                    )) && final(self).peek_pos() == b,
                    _ => (r matches Err(e) && e.message@ == "Expected a comma"@),
                },
            },
    {
        proof {
            self.input.lemma_peek_pos_bounds();
            crate::stream::lemma_spec_lex_bounds(self.text(), self.peek_pos());
        }
        let token = match self.input.consume() {
            Ok(t) => t,
            Err(e) => { return Err(e) },
        };
        match token.data() {
            TokenType::Comma => Ok(token.range()),
            _ => Err(Error::new(String::from_str("Expected a comma"), token.range())),
        }
    }

    /// Read a bare symbol.
    fn symbol(&mut self) -> (r: Result<String, Error>)
        requires
            old(self).wf(),
        ensures
            final(self).wf(),
            final(self).text() == old(self).text(),
            old(self).sections_unchanged(*final(self)),
            old(self).peek_pos() <= final(self).peek_pos(),
            match spec_lex(old(self).text(), old(self).peek_pos()) {
                LexResult::Fail(m, a, b) => r matches Err(e) && e.message@ == m,
                LexResult::Tok(st, a, b) => match st {
                    SpecTok::Symbol(sym) => (r matches Ok(name) && name@ == sym)
                        && final(self).peek_pos() == b,
                    _ => (r matches Err(e) && e.message@ == "Expected a symbol"@),
                },
            },
    {
        proof {
            self.input.lemma_peek_pos_bounds();
            crate::stream::lemma_spec_lex_bounds(self.text(), self.peek_pos());
        }
        let token = match self.input.consume() {
            Ok(t) => t,
            Err(e) => { return Err(e) },
        };
        match token.data() {
            TokenType::Symbol(sym) => Ok(sym.clone()),
            _ => Err(Error::new(String::from_str("Expected a symbol"), token.range())),
        }
    }

    /// Read an unsigned or signed numeric literal into a node.
    fn number(&mut self) -> (r: Result<Node, Error>)
        requires
            old(self).wf(),
        ensures
            final(self).wf(),
            final(self).text() == old(self).text(),
            old(self).sections_unchanged(*final(self)),
            old(self).peek_pos() <= final(self).peek_pos(),
            number_post(old(self).text(), old(self).peek_pos(), r, final(self).peek_pos()),
    {
        proof {
            self.input.lemma_peek_pos_bounds();
            crate::stream::lemma_spec_lex_bounds(self.text(), self.peek_pos());
        }
        let token = match self.input.consume() {
            Ok(t) => t,
            Err(e) => { return Err(e) },
        };
        proof {
            self.input.lemma_peek_pos_bounds();
            crate::stream::lemma_spec_lex_bounds(self.text(), self.peek_pos());
        }
        match token.data() {
            TokenType::Decimal(num) => Ok(Node::new(Type::Unsigned(*num), token.range())),
            TokenType::Hexadecimal(num) => Ok(Node::new(Type::Unsigned(*num), token.range())),
            TokenType::Binary(num) => Ok(Node::new(Type::Unsigned(*num), token.range())),
            TokenType::Minus => {
                let peeked = match self.input.peek() {
                    Ok(Some(t)) => t,
                    Ok(None) => { return Err(Error::plain(String::new())) },
                    Err(e) => { return Err(e) },
                };
                match peeked.data() {
                    TokenType::Decimal(num) => {
                        match self.input.consume() {
                            Ok(_) => {},
                            Err(e) => { return Err(e) },
                        }
                        if *num <= 128 {
                            let v: i8 = (0i16 - *num as i16) as i8;
                            Ok(Node::new(Type::Signed(v), token.range()))
                        } else {
                            Err(
                                Error::new(
                                    String::from_str("Expected a number in range -128->127"),
                                    token.range(),
                                ),
                            )
                        }
                    },
                    TokenType::Hexadecimal(_) => Err(
                        Error::new(
                            String::from_str("Only decimal numbers can be signed"),
                            token.range().join(peeked.range()),
                        ),
                    ),
                    TokenType::Binary(_) => Err(
                        Error::new(
                            String::from_str("Only decimal numbers can be signed"),
                            token.range().join(peeked.range()),
                        ),
                    ),
                    _ => Err(
                        Error::new(String::from_str("Expected a number"), token.range()),
                    ),
                }
            },
            _ => Err(Error::new(String::from_str("Expected a number"), token.range())),
        }
    }

    /// Read an immediate operand: a label reference, a single-byte
    /// text literal, or a number.
    fn immediate(&mut self) -> (r: Result<Node, Error>)
        requires
            old(self).wf(),
        ensures
            final(self).wf(),
            final(self).text() == old(self).text(),
            old(self).sections_unchanged(*final(self)),
            old(self).peek_pos() <= final(self).peek_pos(),
            match spec_lex(old(self).text(), old(self).peek_pos()) {
                LexResult::Fail(m, a, b) => r matches Err(e) && e.message@ == m,
                LexResult::Tok(st, a, b) => match st {
                    SpecTok::Symbol(sym) => (r matches Ok(nd) && (nd.data matches Type::Label(l)
                        && l@ == sym) && nd.range == crate::stream::range_at(old(self).text(), a, b))
                        && final(self).peek_pos() == b,
                    SpecTok::Text(txt) => if vstd::utf8::encode_utf8(txt).len() == 1 {
                        (r matches Ok(nd) && nd.data == Type::Unsigned(
                            vstd::utf8::encode_utf8(txt)[0],
                        ) && nd.range == crate::stream::range_at(old(self).text(), a, b))
                            && final(self).peek_pos() == b
                    } else {
                        (r matches Err(e) && e.message@ == "Expected a single byte"@)
                    },
                    _ => number_post(
                        old(self).text(),
                        old(self).peek_pos(),
                        r,
                        final(self).peek_pos(),
                    ),
                },
            },
    {
        proof {
            self.input.lemma_peek_pos_bounds();
            crate::stream::lemma_spec_lex_bounds(self.text(), self.peek_pos());
        }
        let peeked = match self.input.peek() {
            Ok(Some(t)) => t,
            Ok(None) => { return Err(Error::plain(String::new())) },
            Err(e) => { return Err(e) },
        };
        match peeked.data() {
            TokenType::Symbol(sym) => {
                let name = sym.clone();
                match self.input.consume() {
                    Ok(_) => {},
                    Err(e) => { return Err(e) },
                }
                Ok(Node::new(Type::Label(name), peeked.range()))
            },
            TokenType::Text(txt) => {
                let bytes = txt.as_str().as_bytes();
                let single: Option<u8> = if bytes.len() == 1 {
                    Some(bytes[0])
                } else {
                    None
                };
                match self.input.consume() {
                    Ok(_) => {},
                    Err(e) => { return Err(e) },
                }
                match single {
                    Some(byte) => Ok(Node::new(Type::Unsigned(byte), peeked.range())),
                    None => Err(
                        Error::new(
                            String::from_str("Expected a single byte"),
                            peeked.range(),
                        ),
                    ),
                }
            },
            _ => self.number(),
        }
    }

    /// Parse the two register operands of a two-register mnemonic and
    /// append the statement to the current section. The statement's
    /// range runs from the mnemonic to the second register.
    /// Parse the two register operands of a two-register mnemonic and
    /// append the statement to the current section, as
    /// [`spec_two_reg`] says.
    fn two_register(&mut self, token: &crate::token::Token, mn: TwoReg) -> (r: Result<(), Error>)
        requires
            old(self).wf(),
        ensures
            final(self).wf(),
            final(self).text() == old(self).text(),
            old(self).peek_pos() <= final(self).peek_pos(),
            match spec_two_reg(old(self).text(), old(self).peek_pos(), mn, old(self).pstate()) {
                StmtOut::Next(ps2, e) => r is Ok && final(self).pstate() == ps2
                    && final(self).peek_pos() == e,
                StmtOut::Fail(m) => (r matches Err(err) && err.message@ == m)
                    && final(self).pstate() == old(self).pstate(),
                StmtOut::Stop => false,
            },
    {
        let (mem, mem_range) = match self.register() {
            Ok(p) => p,
            Err(e) => { return Err(e) },
        };
        let c = match self.comma() {
            Ok(rg) => rg,
            Err(e) => { return Err(e) },
        };
        let (reg, reg_range) = match self.register() {
            Ok(p) => p,
            Err(e) => { return Err(e) },
        };
        let data = match mn {
            TwoReg::St => Type::St(mem, reg),
            TwoReg::Ld => Type::Ld(mem, reg),
            TwoReg::Add => Type::Add(mem, reg),
            TwoReg::Sub => Type::Sub(mem, reg),
            TwoReg::Or => Type::Or(mem, reg),
            TwoReg::Xor => Type::Xor(mem, reg),
            TwoReg::And => Type::And(mem, reg),
        };
        let node = Node::new(data, token.range().join(mem_range).join(c).join(reg_range));
        let ghost noden = node;
        let ghost pre = *self;
        match self.building.add(node) {
            Ok(()) => {
                proof {
                    lemma_sect_view_push(pre.building_spec(), self.building_spec(), noden);
                    assert(node_view(noden) == NodeV::Two(mn, mem, reg));
                }
                Ok(())
            },
            Err(e) => Err(e),
        }
    }

    /// Close the section being built, if any, and move it to the
    /// finished list.
    fn flush_building(&mut self)
        ensures
            final(self).inp() == old(self).inp(),
            final(self).building_spec() is Unset,
            final(self).pstate().done == flushed(old(self).pstate()),
            final(self).done_spec() == if old(self).building_spec() is Unset {
                old(self).done_spec()
            } else {
                old(self).done_spec().push(old(self).building_spec())
            },
    {
        let mut taken = Section::Unset;
        core::mem::swap(&mut taken, &mut self.building);
        match taken {
            Section::Unset => {},
            s => {
                self.done.push(s);
                proof {
                    lemma_sect_views_push(old(self).done_spec(), old(self).building_spec());
                }
            },
        }
    }

    /// Reopen the relocatable section of the given name, taking it
    /// back out of the finished list with its earlier content, or
    /// start a fresh one, as [`spec_open_rsect`] says.
    fn open_rsect(&mut self, name: String)
        ensures
            final(self).inp() == old(self).inp(),
            final(self).pstate() == spec_open_rsect(old(self).pstate(), name@),
    {
        self.flush_building();
        let ghost dpre = self.done@;
        let n = self.done.len();
        let mut i: usize = 0;
        let mut found: Option<usize> = None;
        while i < n
            invariant
                i <= n,
                n == self.done@.len(),
                self.done@ == dpre,
                found is None ==> forall|k: int|
                    0 <= k < i ==> !is_rel_named(#[trigger] sect_views(dpre)[k], name@),
                found matches Some(j) ==> j < n && is_rel_named(
                    sect_views(dpre)[j as int],
                    name@,
                ) && (forall|k: int|
                    0 <= k < j ==> !is_rel_named(#[trigger] sect_views(dpre)[k], name@)),
            decreases n - i,
        {
            if found.is_none() {
                match &self.done[i] {
                    Section::RSect { name: existing, .. } => {
                        if existing.eq(&name) {
                            proof {
                                assert(is_rel_named(sect_views(dpre)[i as int], name@));
                            }
                            found = Some(i);
                        } else {
                            proof {
                                assert(!is_rel_named(sect_views(dpre)[i as int], name@));
                            }
                        }
                    },
                    _ => {
                        proof {
                            assert(!is_rel_named(sect_views(dpre)[i as int], name@));
                        }
                    },
                }
            }
            i = i + 1;
        }
        match found {
            Some(j) => {
                proof {
                    lemma_find_rsect_at(sect_views(dpre), name@, j as int);
                }
                let reopened = self.done.remove(j);
                self.building = reopened;
                proof {
                    lemma_sect_views_remove(dpre, j as int);
                }
            },
            None => {
                proof {
                    lemma_find_rsect_none(sect_views(dpre), name@);
                }
                self.building = Section::rsect(name);
                proof {
                    assert(node_views(Seq::<Node>::empty()) =~= Seq::<NodeV>::empty());
                    assert(sect_view(self.building_spec()) == (SectV::Rel {
                        name: name@,
                        content: Seq::<NodeV>::empty(),
                    }));
                }
            },
        }
    }

    /// Read and perform one statement introduced by the symbol `sym`,
    /// whose operand tokens follow the cursor, as [`spec_statement`]
    /// says. `Ok(true)` continues the parse; `Ok(false)` is the `end`
    /// directive.
    #[verifier::rlimit(100)]
    fn statement(&mut self, token: &crate::token::Token, sym: String) -> (r: Result<bool, Error>)
        requires
            old(self).wf(),
        ensures
            final(self).wf(),
            final(self).text() == old(self).text(),
            old(self).peek_pos() <= final(self).peek_pos(),
            match spec_statement(old(self).text(), sym@, old(self).peek_pos(), old(self).pstate())
            {
                StmtOut::Next(ps2, e) => r == Ok::<bool, Error>(true) && final(self).pstate()
                    == ps2 && final(self).peek_pos() == e,
                StmtOut::Stop => r == Ok::<bool, Error>(false) && final(self).pstate() == old(
                    self,
                ).pstate() && *final(self) == *old(self),
                StmtOut::Fail(m) => (r matches Err(e) && e.message@ == m) && final(self).pstate()
                    == old(self).pstate(),
            },
    {
        let ghost s = self.text();
        let ghost b = self.peek_pos();
        let ghost ps0 = self.pstate();
        let ghost symv = sym@;
                if is_kw(&sym, "asect") {
                    let pos = match self.number() {
                        Ok(nd) => nd,
                        Err(e) => {
                            proof {
                                assert(spec_statement(s, symv, b, ps0) == StmtOut::Fail(
                                    e.message@,
                                ));
                            }
                            return Err(e);
                        },
                    };
                    let ghost e1 = self.peek_pos();
                    match pos.data() {
                        Type::Unsigned(idx) => {
                            self.flush_building();
                            self.building = Section::absolute(*idx);
                            proof {
                                assert(node_views(Seq::<Node>::empty())
                                    =~= Seq::<NodeV>::empty());
                                assert(spec_statement(s, symv, b, ps0) == StmtOut::Next(
                                    self.pstate(),
                                    e1,
                                ));
                            }
                        },
                        _ => {
                            proof {
                                assert(spec_statement(s, symv, b, ps0) == StmtOut::Fail(
                                    "Expected address"@,
                                ));
                            }
                            return Err(
                                Error::new(
                                    String::from_str("Expected address"),
                                    pos.range(),
                                ),
                            );
                        },
                    }
                } else if is_kw(&sym, "rsect") {
                    let name = match self.symbol() {
                        Ok(nm) => nm,
                        Err(e) => {
                            proof {
                                assert(spec_statement(s, symv, b, ps0) == StmtOut::Fail(
                                    e.message@,
                                ));
                            }
                            return Err(e);
                        },
                    };
                    let ghost e1 = self.peek_pos();
                    self.open_rsect(name);
                    proof {
                        assert(spec_statement(s, symv, b, ps0) == StmtOut::Next(
                            self.pstate(),
                            e1,
                        ));
                    }
                } else if is_kw(&sym, "st") {
                    match self.two_register(&token, TwoReg::St) {
                        Ok(()) => {},
                        Err(e) => { return Err(e) },
                    }
                } else if is_kw(&sym, "ld") {
                    match self.two_register(&token, TwoReg::Ld) {
                        Ok(()) => {},
                        Err(e) => { return Err(e) },
                    }
                } else if is_kw(&sym, "add") {
                    match self.two_register(&token, TwoReg::Add) {
                        Ok(()) => {},
                        Err(e) => { return Err(e) },
                    }
                } else if is_kw(&sym, "sub") {
                    match self.two_register(&token, TwoReg::Sub) {
                        Ok(()) => {},
                        Err(e) => { return Err(e) },
                    }
                } else if is_kw(&sym, "or") {
                    match self.two_register(&token, TwoReg::Or) {
                        Ok(()) => {},
                        Err(e) => { return Err(e) },
                    }
                } else if is_kw(&sym, "xor") {
                    match self.two_register(&token, TwoReg::Xor) {
                        Ok(()) => {},
                        Err(e) => { return Err(e) },
                    }
                } else if is_kw(&sym, "and") {
                    match self.two_register(&token, TwoReg::And) {
                        Ok(()) => {},
                        Err(e) => { return Err(e) },
                    }
                } else if is_kw(&sym, "ldi") {
                    let (rn, r_range) = match self.register() {
                        Ok(p) => p,
                        Err(e) => {
                            proof {
                                assert(spec_statement(s, symv, b, ps0) == StmtOut::Fail(
                                    e.message@,
                                ));
                            }
                            return Err(e);
                        },
                    };
                    let c = match self.comma() {
                        Ok(rg) => rg,
                        Err(e) => {
                            proof {
                                assert(spec_statement(s, symv, b, ps0) == StmtOut::Fail(
                                    e.message@,
                                ));
                            }
                            return Err(e);
                        },
                    };
                    let lit = match self.immediate() {
                        Ok(nd) => nd,
                        Err(e) => {
                            proof {
                                assert(spec_statement(s, symv, b, ps0) == StmtOut::Fail(
                                    e.message@,
                                ));
                            }
                            return Err(e);
                        },
                    };
                    let ghost e3 = self.peek_pos();
                    let ghost litv = operand_view(lit.data);
                    let l = lit.range();
                    let node = Node::new(
                        Type::Ldi(rn, Box::new(lit)),
                        token.range().join(r_range).join(c).join(l),
                    );
                    let ghost noden = node;
                    let ghost pre = *self;
                    match self.building.add(node) {
                        Ok(()) => {
                            proof {
                                lemma_sect_view_push(
                                    pre.building_spec(),
                                    self.building_spec(),
                                    noden,
                                );
                                assert(node_view(noden) == NodeV::Ldi(rn, litv));
                                assert(spec_statement(s, symv, b, ps0) == StmtOut::Next(
                                    self.pstate(),
                                    e3,
                                ));
                            }
                        },
                        Err(e) => {
                            proof {
                                assert(spec_statement(s, symv, b, ps0) == StmtOut::Fail(
                                    e.message@,
                                ));
                            }
                            return Err(e);
                        },
                    }
                } else if is_kw(&sym, "halt") {
                    let node = Node::new(Type::Halt, token.range());
                    let ghost noden = node;
                    let ghost pre = *self;
                    match self.building.add(node) {
                        Ok(()) => {
                            proof {
                                lemma_sect_view_push(
                                    pre.building_spec(),
                                    self.building_spec(),
                                    noden,
                                );
                                assert(spec_statement(s, symv, b, ps0) == StmtOut::Next(
                                    self.pstate(),
                                    b,
                                ));
                            }
                        },
                        Err(e) => {
                            proof {
                                assert(spec_statement(s, symv, b, ps0) == StmtOut::Fail(
                                    e.message@,
                                ));
                            }
                            return Err(e);
                        },
                    }
                } else if is_kw(&sym, "wait") {
                    let node = Node::new(Type::Wait, token.range());
                    let ghost noden = node;
                    let ghost pre = *self;
                    match self.building.add(node) {
                        Ok(()) => {
                            proof {
                                lemma_sect_view_push(
                                    pre.building_spec(),
                                    self.building_spec(),
                                    noden,
                                );
                                assert(spec_statement(s, symv, b, ps0) == StmtOut::Next(
                                    self.pstate(),
                                    b,
                                ));
                            }
                        },
                        Err(e) => {
                            proof {
                                assert(spec_statement(s, symv, b, ps0) == StmtOut::Fail(
                                    e.message@,
                                ));
                            }
                            return Err(e);
                        },
                    }
                } else if is_kw(&sym, "dc") {
                    let data = match self.immediate() {
                        Ok(nd) => nd,
                        Err(e) => {
                            proof {
                                assert(spec_statement(s, symv, b, ps0) == StmtOut::Fail(
                                    e.message@,
                                ));
                            }
                            return Err(e);
                        },
                    };
                    let ghost e1 = self.peek_pos();
                    let ghost datav = operand_view(data.data);
                    let ghost datan = data;
                    let ghost pre = *self;
                    match self.building.add(data) {
                        Ok(()) => {
                            proof {
                                lemma_sect_view_push(
                                    pre.building_spec(),
                                    self.building_spec(),
                                    datan,
                                );
                                assert(node_view(datan) == operand_node(datav));
                                assert(spec_statement(s, symv, b, ps0) == StmtOut::Next(
                                    self.pstate(),
                                    e1,
                                ));
                            }
                        },
                        Err(e) => {
                            proof {
                                assert(spec_statement(s, symv, b, ps0) == StmtOut::Fail(
                                    e.message@,
                                ));
                            }
                            return Err(e);
                        },
                    }
                } else if is_kw(&sym, "ds") {
                    let pos = match self.number() {
                        Ok(nd) => nd,
                        Err(e) => {
                            proof {
                                assert(spec_statement(s, symv, b, ps0) == StmtOut::Fail(
                                    e.message@,
                                ));
                            }
                            return Err(e);
                        },
                    };
                    let ghost e1 = self.peek_pos();
                    match pos.data() {
                        Type::Unsigned(idx) => {
                            let node = Node::new(
                                Type::Ds(*idx),
                                token.range().join(pos.range()),
                            );
                            let ghost noden = node;
                            let ghost pre = *self;
                            match self.building.add(node) {
                                Ok(()) => {
                                    proof {
                                        lemma_sect_view_push(
                                            pre.building_spec(),
                                            self.building_spec(),
                                            noden,
                                        );
                                                assert(spec_statement(s, symv, b, ps0)
                                            == StmtOut::Next(self.pstate(), e1));
                                    }
                                },
                                Err(e) => {
                                    proof {
                                        assert(spec_statement(s, symv, b, ps0)
                                            == StmtOut::Fail(e.message@));
                                    }
                                    return Err(e);
                                },
                            }
                        },
                        _ => {
                            proof {
                                assert(spec_statement(s, symv, b, ps0) == StmtOut::Fail(
                                    "Expected amount"@,
                                ));
                            }
                            return Err(
                                Error::new(
                                    String::from_str("Expected amount"),
                                    pos.range(),
                                ),
                            );
                        },
                    }
                } else if is_kw(&sym, "end") {
                    proof {
                        assert(spec_statement(s, symv, b, ps0) == StmtOut::Stop);
                    }
                    return Ok(false);
                } else {
                    proof {
                        self.input.lemma_peek_pos_bounds();
                        crate::stream::lemma_spec_lex_bounds(self.text(), self.peek_pos());
                    }
                    let peeked = match self.input.peek() {
                        Ok(Some(t)) => t,
                        Ok(None) => { return Err(Error::plain(String::new())) },
                        Err(e) => {
                            proof {
                                assert(spec_statement(s, symv, b, ps0) == StmtOut::Fail(
                                    e.message@,
                                ));
                            }
                            return Err(e);
                        },
                    };
                    match peeked.data() {
                        TokenType::Colon => {
                            match self.input.consume() {
                                Ok(_) => {},
                                Err(e) => { return Err(e) },
                            }
                            let ghost e1 = self.peek_pos();
                            let node = Node::new(
                                Type::Label(sym),
                                token.range().join(peeked.range()),
                            );
                            let ghost noden = node;
                            let ghost pre = *self;
                            match self.building.add(node) {
                                Ok(()) => {
                                    proof {
                                        lemma_sect_view_push(
                                            pre.building_spec(),
                                            self.building_spec(),
                                            noden,
                                        );
                                                assert(spec_statement(s, symv, b, ps0)
                                            == StmtOut::Next(self.pstate(), e1));
                                    }
                                },
                                Err(e) => {
                                    proof {
                                        assert(spec_statement(s, symv, b, ps0)
                                            == StmtOut::Fail(e.message@));
                                    }
                                    return Err(e);
                                },
                            }
                        },
                        TokenType::Gt => {
                            match self.input.consume() {
                                Ok(_) => {},
                                Err(e) => { return Err(e) },
                            }
                            let ghost e1 = self.peek_pos();
                            let node = Node::new(
                                Type::Entry(sym),
                                token.range().join(peeked.range()),
                            );
                            let ghost noden = node;
                            let ghost pre = *self;
                            match self.building.add(node) {
                                Ok(()) => {
                                    proof {
                                        lemma_sect_view_push(
                                            pre.building_spec(),
                                            self.building_spec(),
                                            noden,
                                        );
                                                assert(spec_statement(s, symv, b, ps0)
                                            == StmtOut::Next(self.pstate(), e1));
                                    }
                                },
                                Err(e) => {
                                    proof {
                                        assert(spec_statement(s, symv, b, ps0)
                                            == StmtOut::Fail(e.message@));
                                    }
                                    return Err(e);
                                },
                            }
                        },
                        _ => {
                            let e = Error::new(
                                String::from_str("Unexpected ").concat(sym.as_str()),
                                token.range(),
                            );
                            proof {
                                assert(spec_statement(s, symv, b, ps0) == StmtOut::Fail(
                                    e.message@,
                                ));
                            }
                            return Err(e);
                        },
                    }
                }
            
        Ok(true)
    }

    /// Run the top-level parse loop: read statements into sections
    /// until the `end` directive. What comes out is pinned down by
    /// [`spec_statements`]: on `Ok` the finished sections, seen
    /// through [`sect_view`] (so modulo source ranges), are exactly
    /// the specification's, and on `Err` the message and the sections
    /// finished by then are exactly the specification's.
    pub fn node(&mut self) -> (r: Result<(), Error>)
        requires
            old(self).wf(),
        ensures
            final(self).wf(),
            final(self).text() == old(self).text(),
            final(self).building_spec() is Unset,
            match spec_statements(old(self).text(), old(self).peek_pos(), old(self).pstate()) {
                ParseOut::Parsed(sects) => r is Ok && final(self).pstate().done == sects,
                ParseOut::Failed(m, sects) => (r matches Err(e) && e.message@ == m)
                    && final(self).pstate().done == sects,
                ParseOut::Stuck => true,
            },
    {
        let r = self.statements();
        self.flush_building();
        r
    }

    /// The statement loop body of [`Parser::node`].
    #[verifier::rlimit(100)]
    fn statements(&mut self) -> (r: Result<(), Error>)
        requires
            old(self).wf(),
        ensures
            final(self).wf(),
            final(self).text() == old(self).text(),
            match spec_statements(old(self).text(), old(self).peek_pos(), old(self).pstate()) {
                ParseOut::Parsed(sects) => r is Ok && flushed(final(self).pstate()) == sects,
                ParseOut::Failed(m, sects) => (r matches Err(e) && e.message@ == m) && flushed(
                    final(self).pstate(),
                ) == sects,
                ParseOut::Stuck => true,
            },
    {
        let ghost s = self.text();
        loop
            invariant
                self.wf(),
                self.text() == old(self).text(),
                s == self.text(),
                spec_statements(s, old(self).peek_pos(), old(self).pstate()) == spec_statements(
                    s,
                    self.peek_pos(),
                    self.pstate(),
                ),
            decreases self.text().len() - self.peek_pos(),
        {
            proof {
                self.input.lemma_peek_pos_bounds();
                crate::stream::lemma_spec_lex_bounds(self.text(), self.peek_pos());
            }
            let ghost p0 = self.peek_pos();
            let ghost ps0 = self.pstate();
            let token = match self.input.consume() {
                Ok(t) => t,
                Err(e) => {
                    proof {
                        assert(spec_statements(s, p0, ps0) == ParseOut::Failed(
                            e.message@,
                            flushed(ps0),
                        ));
                    }
                    return Err(e);
                },
            };
            let ghost b = self.peek_pos();
            match token.data() {
                TokenType::Symbol(sym) => {
                    proof {
                        assert(self.peek_pos() > p0);
                    }
                    let sym = sym.clone();
                    let ghost symv = sym@;
                    match self.statement(&token, sym) {
                        Ok(true) => {
                            proof {
                                self.input.lemma_peek_pos_bounds();
                                assert(spec_statements(s, p0, ps0) == spec_statements(
                                    s,
                                    self.peek_pos(),
                                    self.pstate(),
                                ));
                            }
                        },
                        Ok(false) => {
                            proof {
                                assert(spec_statements(s, p0, ps0) == ParseOut::Parsed(
                                    flushed(ps0),
                                ));
                            }
                            return Ok(());
                        },
                        Err(e) => {
                            proof {
                                assert(spec_statements(s, p0, ps0) == ParseOut::Failed(
                                    e.message@,
                                    flushed(ps0),
                                ));
                            }
                            return Err(e);
                        },
                    }
                },
                TokenType::Comment(_) => {
                    proof {
                        assert(self.peek_pos() > p0);
                        self.input.lemma_peek_pos_bounds();
                        assert(spec_statements(s, p0, ps0) == spec_statements(
                            s,
                            self.peek_pos(),
                            self.pstate(),
                        ));
                    }
                },
                _ => {
                    let e = Error::new(String::from_str("Unexpected token"), token.range());
                    proof {
                        assert(spec_statements(s, p0, ps0) == ParseOut::Failed(
                            e.message@,
                            flushed(ps0),
                        ));
                    }
                    return Err(e);
                },
            }
            proof {
                assert(self.peek_pos() > p0);
            }
        }
    }
}


/// Reading a number never moves backwards and stays in the input.
proof fn lemma_number_out_bounds(s: Seq<char>, p: int)
    requires
        0 <= p <= s.len(),
    ensures
        match spec_number_out(s, p) {
            NumOut::Num(v, e) => p < e <= s.len(),
            NumOut::Fail(m) => true,
        },
{
    crate::stream::lemma_spec_lex_bounds(s, p);
    match spec_lex(s, p) {
        LexResult::Fail(m, a, b) => {},
        LexResult::Tok(t, a, b) => {
            crate::stream::lemma_spec_lex_bounds(s, b);
        },
    }
}

/// Reading an immediate never moves backwards and stays in the input.
proof fn lemma_immediate_out_bounds(s: Seq<char>, p: int)
    requires
        0 <= p <= s.len(),
    ensures
        match spec_immediate_out(s, p) {
            NumOut::Num(v, e) => p < e <= s.len(),
            NumOut::Fail(m) => true,
        },
{
    crate::stream::lemma_spec_lex_bounds(s, p);
    lemma_number_out_bounds(s, p);
}

/// A statement that continues leaves the cursor strictly past the
/// introducing symbol's end, inside the input.
#[verifier::rlimit(100)]
proof fn lemma_statement_bounds(s: Seq<char>, sym: Seq<char>, b: int, ps: PState)
    requires
        0 <= b <= s.len(),
    ensures
        match spec_statement(s, sym, b, ps) {
            StmtOut::Next(ps2, e) => b <= e <= s.len(),
            StmtOut::Stop => true,
            StmtOut::Fail(m) => true,
        },
{
    lemma_number_out_bounds(s, b);
    lemma_immediate_out_bounds(s, b);
    crate::stream::lemma_spec_lex_bounds(s, b);
    match spec_lex(s, b) {
        LexResult::Fail(m, a1, e1) => {},
        LexResult::Tok(t1, a1, e1) => {
            crate::stream::lemma_spec_lex_bounds(s, e1);
            lemma_immediate_out_bounds(s, e1);
            match spec_lex(s, e1) {
                LexResult::Fail(m, a2, e2) => {},
                LexResult::Tok(t2, a2, e2) => {
                    crate::stream::lemma_spec_lex_bounds(s, e2);
                    lemma_immediate_out_bounds(s, e2);
                },
            }
        },
    }
}

/// The parse never gets stuck: every token and every statement move
/// the cursor forward, so the recursion in [`spec_statements`] always
/// reaches `end`, an error, or the end of the input.
pub proof fn lemma_statements_not_stuck(s: Seq<char>, pos: int, ps: PState)
    requires
        0 <= pos <= s.len(),
    ensures
        !(spec_statements(s, pos, ps) is Stuck),
    decreases s.len() - pos,
{
    crate::stream::lemma_spec_lex_bounds(s, pos);
    match spec_lex(s, pos) {
        LexResult::Fail(m, a, b) => {},
        LexResult::Tok(t, a, b) => {
            match t {
                SpecTok::Symbol(sym) => {
                    lemma_statement_bounds(s, sym, b, ps);
                    match spec_statement(s, sym, b, ps) {
                        StmtOut::Next(ps2, e) => {
                            lemma_statements_not_stuck(s, e, ps2);
                        },
                        StmtOut::Stop => {},
                        StmtOut::Fail(m) => {},
                    }
                },
                SpecTok::Comment(c) => {
                    lemma_statements_not_stuck(s, b, ps);
                },
                _ => {},
            }
        },
    }
}


/// The name of a relocatable section, if it is one.
pub open spec fn rel_name_of(v: SectV) -> Option<Seq<char>> {
    match v {
        SectV::Rel { name, .. } => Some(name),
        _ => None,
    }
}

/// No two sections of the list are relocatable ones of the same name.
pub open spec fn rsects_unique(sects: Seq<SectV>) -> bool {
    forall|i: int, j: int|
        0 <= i < j < sects.len() ==> !(rel_name_of(#[trigger] sects[i]) is Some && rel_name_of(
            sects[i],
        ) == rel_name_of(#[trigger] sects[j]))
}

/// The parser state keeps relocatable names unique: among the
/// finished sections, and between them and the one being built.
pub open spec fn pstate_unique(ps: PState) -> bool {
    &&& rsects_unique(ps.done)
    &&& (rel_name_of(ps.building) is Some ==> forall|k: int|
        0 <= k < ps.done.len() ==> rel_name_of(#[trigger] ps.done[k]) != rel_name_of(ps.building))
}

/// Closing the open section keeps relocatable names unique.
proof fn lemma_flushed_unique(ps: PState)
    requires
        pstate_unique(ps),
    ensures
        rsects_unique(flushed(ps)),
{
}

/// What the search finds is a relocatable section of the name, and
/// nothing before it is.
proof fn lemma_find_rsect_found(d: Seq<SectV>, nm: Seq<char>)
    ensures
        match find_rsect(d, nm) {
            Some(j) => 0 <= j < d.len() && is_rel_named(d[j], nm) && (forall|k: int|
                0 <= k < j ==> !is_rel_named(#[trigger] d[k], nm)),
            None => forall|k: int| 0 <= k < d.len() ==> !is_rel_named(#[trigger] d[k], nm),
        },
    decreases d.len(),
{
    if d.len() > 0 {
        lemma_find_rsect_found(d.skip(1), nm);
        assert forall|k: int| 1 <= k < d.len() implies is_rel_named(#[trigger] d[k], nm)
            == is_rel_named(d.skip(1)[k - 1], nm) by {
            assert(d.skip(1)[k - 1] == d[k]);
        }
    }
}

/// Removing a section keeps relocatable names unique, and a name
/// that occurred only at the removed place is gone.
proof fn lemma_unique_remove(d: Seq<SectV>, j: int, nm: Seq<char>)
    requires
        0 <= j < d.len(),
        rsects_unique(d),
        is_rel_named(d[j], nm),
    ensures
        rsects_unique(d.remove(j)),
        forall|k: int| 0 <= k < d.remove(j).len() ==> !is_rel_named(#[trigger] d.remove(j)[k], nm),
{
    d.remove_ensures(j);
}

/// One statement keeps relocatable names unique.
#[verifier::rlimit(100)]
proof fn lemma_statement_unique(s: Seq<char>, sym: Seq<char>, b: int, ps: PState)
    requires
        pstate_unique(ps),
    ensures
        match spec_statement(s, sym, b, ps) {
            StmtOut::Next(ps2, e) => pstate_unique(ps2),
            StmtOut::Stop => true,
            StmtOut::Fail(m) => true,
        },
{
    lemma_flushed_unique(ps);
    match spec_statement(s, sym, b, ps) {
        StmtOut::Next(ps2, e) => {
            if sym == "rsect"@ {
                match spec_lex(s, b) {
                    LexResult::Fail(m, a, e1) => {},
                    LexResult::Tok(t, a, e1) => match t {
                        SpecTok::Symbol(name) => {
                            let d = flushed(ps);
                            lemma_find_rsect_found(d, name);
                            match find_rsect(d, name) {
                                Some(j) => {
                                    lemma_unique_remove(d, j, name);
                                },
                                None => {},
                            }
                        },
                        _ => {},
                    },
                }
            }
        },
        _ => {},
    }
}

/// Every section list the parse produces holds at most one
/// relocatable section per name: reopening takes the old section back
/// out, so a fresh parser can never finish with two of the same name.
pub proof fn lemma_statements_rsects_unique(s: Seq<char>, pos: int, ps: PState)
    requires
        0 <= pos <= s.len(),
        pstate_unique(ps),
    ensures
        match spec_statements(s, pos, ps) {
            ParseOut::Parsed(sects) => rsects_unique(sects),
            ParseOut::Failed(m, sects) => rsects_unique(sects),
            ParseOut::Stuck => true,
        },
    decreases s.len() - pos,
{
    lemma_flushed_unique(ps);
    match spec_lex(s, pos) {
        LexResult::Fail(m, a, b) => {},
        LexResult::Tok(t, a, b) => match t {
            SpecTok::Symbol(sym) => {
                lemma_statement_unique(s, sym, b, ps);
                match spec_statement(s, sym, b, ps) {
                    StmtOut::Next(ps2, e) => {
                        if pos < e && e <= s.len() {
                            lemma_statements_rsects_unique(s, e, ps2);
                        }
                    },
                    StmtOut::Stop => {},
                    StmtOut::Fail(m) => {},
                }
            },
            SpecTok::Comment(c) => {
                if pos < b && b <= s.len() {
                    lemma_statements_rsects_unique(s, b, ps);
                }
            },
            _ => {},
        },
    }
}

/// Whether a symbol is the given keyword.
fn is_kw(sym: &String, kw: &str) -> (r: bool)
    ensures
        r == (sym@ == kw@),
{
    String::from_str(kw).eq(sym)
}

/// The word a two-register mnemonic is written as.
pub open spec fn two_reg_mnemonic(mn: TwoReg) -> Seq<char> {
    match mn {
        TwoReg::St => "st"@,
        TwoReg::Ld => "ld"@,
        TwoReg::Add => "add"@,
        TwoReg::Sub => "sub"@,
        TwoReg::Or => "or"@,
        TwoReg::Xor => "xor"@,
        TwoReg::And => "and"@,
    }
}

/// After skipping whitespace to `q`, an `r` followed by a register
/// digit lexes as that register.
proof fn lemma_lex_register_skip(s: Seq<char>, p: int, q: int, v: u8)
    requires
        0 <= p <= q,
        q + 2 <= s.len(),
        scan_end(s, p, Matcher::Whitespace) == q,
        s[q] == 'r',
        s[q + 1] == digit_char(v),
        v < 4,
    ensures
        spec_lex(s, p) == LexResult::Tok(SpecTok::Register(v), q, q + 2),
{
    assert(is_dec(digit_char(v)));
    if v == 0 {
    } else if v == 1 {
    } else if v == 2 {
    } else {
        assert(v == 3);
    }
}

/// After skipping whitespace to `q`, a comma lexes as a comma.
proof fn lemma_lex_comma_skip(s: Seq<char>, p: int, q: int)
    requires
        0 <= p <= q,
        q < s.len(),
        scan_end(s, p, Matcher::Whitespace) == q,
        s[q] == ',',
    ensures
        spec_lex(s, p) == LexResult::Tok(SpecTok::Comma, q, q + 1),
{
}

/// After skipping whitespace to `q`, a word starting with a letter
/// other than `r` lexes as the symbol running to `e`.
proof fn lemma_lex_symbol_skip(s: Seq<char>, p: int, q: int, e: int)
    requires
        0 <= p <= q < e <= s.len(),
        scan_end(s, p, Matcher::Whitespace) == q,
        is_alpha(s[q]),
        s[q] != 'r',
        forall|j: int| q <= j < e ==> is_alnum(#[trigger] s[j]),
        e == s.len() || !is_alnum(s[e]),
    ensures
        spec_lex(s, p) == LexResult::Tok(SpecTok::Symbol(s.subrange(q, e)), q, e),
{
    lemma_scan_exact(s, q, e, Matcher::Alnum);
}

/// Whitespace to the end of the input lexes as the end-of-input
/// token.
proof fn lemma_lex_eof_skip(s: Seq<char>, p: int)
    requires
        0 <= p,
        scan_end(s, p, Matcher::Whitespace) == s.len(),
    ensures
        spec_lex(s, p) == LexResult::Tok(SpecTok::Eof, s.len() as int, s.len() as int),
{
}

/// Printing a two-register statement and lexing the printed text
/// yields exactly the statement's tokens: the mnemonic symbol, the
/// first register, a comma, the second register, and the end of the
/// input. Together with [`Parser::two_register`]'s contract this
/// closes the loop: parsing the printed statement appends the very
/// statement again, differing only in source ranges.
#[verifier::rlimit(100)]
pub proof fn lemma_print_lex_two_register(mn: TwoReg, a: u8, b: u8)
    requires
        a < 4,
        b < 4,
    ensures
        ({
            let s = spec_type_text(mk_two(mn, a, b));
            let m = two_reg_mnemonic(mn).len() as int;
            &&& spec_lex(s, 0) == LexResult::Tok(SpecTok::Symbol(two_reg_mnemonic(mn)), 0, m)
            &&& spec_lex(s, m) == LexResult::Tok(SpecTok::Register(a), m + 1, m + 3)
            &&& spec_lex(s, m + 3) == LexResult::Tok(SpecTok::Comma, m + 3, m + 4)
            &&& spec_lex(s, m + 4) == LexResult::Tok(SpecTok::Register(b), m + 5, m + 7)
            &&& spec_lex(s, m + 7) == LexResult::Tok(SpecTok::Eof, m + 7, m + 7)
        }),
{
    let s = spec_type_text(mk_two(mn, a, b));
    let m = two_reg_mnemonic(mn).len() as int;
    let da = digit_char(a);
    let db = digit_char(b);
    assert(spec_dec(a) =~= seq![da]);
    assert(spec_dec(b) =~= seq![db]);
    reveal_strlit(", r");
    match mn {
        TwoReg::St => {
            reveal_strlit("st r");
            reveal_strlit("st");
            assert(s =~= "st"@ + seq![' ', 'r', da, ',', ' ', 'r', db]);
        },
        TwoReg::Ld => {
            reveal_strlit("ld r");
            reveal_strlit("ld");
            assert(s =~= "ld"@ + seq![' ', 'r', da, ',', ' ', 'r', db]);
        },
        TwoReg::Add => {
            reveal_strlit("add r");
            reveal_strlit("add");
            assert(s =~= "add"@ + seq![' ', 'r', da, ',', ' ', 'r', db]);
        },
        TwoReg::Sub => {
            reveal_strlit("sub r");
            reveal_strlit("sub");
            assert(s =~= "sub"@ + seq![' ', 'r', da, ',', ' ', 'r', db]);
        },
        TwoReg::Or => {
            reveal_strlit("or r");
            reveal_strlit("or");
            assert(s =~= "or"@ + seq![' ', 'r', da, ',', ' ', 'r', db]);
        },
        TwoReg::Xor => {
            reveal_strlit("xor r");
            reveal_strlit("xor");
            assert(s =~= "xor"@ + seq![' ', 'r', da, ',', ' ', 'r', db]);
        },
        TwoReg::And => {
            reveal_strlit("and r");
            reveal_strlit("and");
            assert(s =~= "and"@ + seq![' ', 'r', da, ',', ' ', 'r', db]);
        },
    }
    assert(s == two_reg_mnemonic(mn) + seq![' ', 'r', da, ',', ' ', 'r', db]);
    assert(s.len() == m + 7);
    assert(forall|j: int| 0 <= j < m ==> is_alnum(#[trigger] s[j]) && !is_ws(s[j])) by {
        assert(forall|j: int| 0 <= j < m ==> s[j] == #[trigger] two_reg_mnemonic(mn)[j]);
    }
    assert(s[m] == ' ' && s[m + 1] == 'r' && s[m + 2] == da && s[m + 3] == ',' && s[m + 4] == ' '
        && s[m + 5] == 'r' && s[m + 6] == db);

    // The mnemonic symbol.
    lemma_scan_exact(s, 0, 0, Matcher::Whitespace);
    lemma_lex_symbol_skip(s, 0, 0, m);
    assert(s.subrange(0, m) =~= two_reg_mnemonic(mn));

    // The first register, after one space.
    lemma_scan_exact(s, m, m + 1, Matcher::Whitespace);
    lemma_lex_register_skip(s, m, m + 1, a);

    // The comma.
    lemma_scan_exact(s, m + 3, m + 3, Matcher::Whitespace);
    lemma_lex_comma_skip(s, m + 3, m + 3);

    // The second register, after one space.
    lemma_scan_exact(s, m + 4, m + 5, Matcher::Whitespace);
    lemma_lex_register_skip(s, m + 4, m + 5, b);

    // And the end of the input.
    lemma_scan_exact(s, m + 7, m + 7, Matcher::Whitespace);
    lemma_lex_eof_skip(s, m + 7);
}

/// Printing a statement without operands and lexing the printed text
/// yields exactly its mnemonic symbol and the end of the input: with
/// the parser's treatment of `halt` and `wait`, parsing the printed
/// statement appends the same statement again.
pub proof fn lemma_print_lex_plain_statement(t: Type)
    requires
        t == Type::Halt || t == Type::Wait,
    ensures
        ({
            let s = spec_type_text(t);
            &&& spec_lex(s, 0) == LexResult::Tok(SpecTok::Symbol(s), 0, s.len() as int)
            &&& spec_lex(s, s.len() as int) == LexResult::Tok(
                SpecTok::Eof,
                s.len() as int,
                s.len() as int,
            )
        }),
{
    let s = spec_type_text(t);
    if t == Type::Halt {
        reveal_strlit("halt");
    } else {
        reveal_strlit("wait");
    }
    assert(forall|j: int| 0 <= j < s.len() ==> is_alnum(#[trigger] s[j]));
    lemma_scan_exact(s, 0, 0, Matcher::Whitespace);
    lemma_lex_symbol_skip(s, 0, 0, s.len() as int);
    assert(s.subrange(0, s.len() as int) =~= s);
    lemma_scan_exact(s, s.len() as int, s.len() as int, Matcher::Whitespace);
    lemma_lex_eof_skip(s, s.len() as int);
}

} // verus!


